//! The orchestrator: what has to be done for one presence transition.
//!
//! Handling a transition takes work that only the platform and the
//! persistence layer can do: looking a family up, reserving a number,
//! opening, renaming and closing rooms. The orchestrator does none of it
//! itself. A [`Run`] says which piece of outside work comes next (an
//! [`Action`]); whoever drives it does the work and hands back how it went
//! (a [`Reply`]); the run answers with the next action, until it has
//! finished or failed. [`next`] is the whole rule.
//!
//! For each room of the transition, the joined one first:
//!
//! 1. The family of the room is looked up. A room that no family knows is
//!    passed over.
//! 2. Where the joined room is the template room, and its pattern
//!    compiles, a number is reserved, a sibling room is opened under the
//!    name that the pattern makes, and the occupant is moved into it.
//! 3. Where the left room is a sibling room that is empty now, it is closed
//!    and its number is given back.
//! 4. Every sibling of the family is renamed where its name is no longer
//!    what the pattern makes.
//!
//! Outside work that fails ends the run with a [`Failure`] that names the
//! room and the work. Nothing is tried twice, and a number that was
//! reserved is not given back.

use vstd::prelude::*;
use crate::cache::{
    admits_sibling, lemma_with_sibling, lemma_without_sibling, state_wf, with_sibling,
    without_sibling, FamilyState,
};
use crate::events::ParsedVoiceStateEvent;
use crate::family::{lemma_with_member_wf, lemma_without_member_wf, Family, FamilyView};
use crate::render::{render_pattern, rendered, NameContext};
use crate::request::{json_fields, room_fields, room_request, JsonField, JsonObject};
use crate::template::{compiled, parse_template, CompileError};
use crate::text::{decimal, push_chars, push_decimal};

verus! {

/// What the platform knows of a room.
#[derive(Debug)]
pub struct RoomInfo {
    /// The name of the room.
    pub name: String,
    /// The category that the room stands in, if it stands in one.
    pub category: Option<u64>,
    /// How many occupants the room has.
    pub occupants: u64,
}

/// What a [`RoomInfo`] holds.
pub struct RoomInfoView {
    pub name: Seq<char>,
    pub category: Option<u64>,
    pub occupants: u64,
}

impl View for RoomInfo {
    type V = RoomInfoView;

    open spec fn view(&self) -> RoomInfoView {
        RoomInfoView { name: self.name@, category: self.category, occupants: self.occupants }
    }
}

/// A piece of work on the platform.
#[derive(Debug, Clone, Copy, PartialEq, Eq)]
pub enum Operation {
    Inspect,
    CreateRoom,
    MoveOccupant,
    DeleteRoom,
    Rename,
}

/// Why a run ended without finishing.
#[derive(Debug, Clone, Copy, PartialEq, Eq)]
pub enum Failure {
    /// The pattern of the template room does not compile.
    Compile { template: u64, error: CompileError },
    /// The family of the room could not be looked up.
    LookupFailed { room: u64 },
    /// No number could be reserved, recorded or given back for the family
    /// of the template room.
    AllocationFailed { template: u64 },
    /// The platform did not do the work on the room.
    TransportFailed { room: u64, operation: Operation },
    /// The reply answers nothing that the run had asked for.
    OutOfTurn,
}

/// How a piece of outside work went.
#[derive(Debug)]
pub enum Reply {
    /// The family that the room belongs to; `None` where no family knows
    /// the room.
    Family(Option<Family>),
    /// What the platform knows of the room.
    Room(RoomInfo),
    /// The number that was reserved.
    Number(u64),
    /// The room that was opened.
    Created(u64),
    /// The work is done; there is nothing to tell.
    Done,
    /// The work was not done.
    Failed,
}

/// What a [`Reply`] holds.
pub enum ReplyView {
    Family(Option<FamilyView>),
    Room(RoomInfoView),
    Number(u64),
    Created(u64),
    Done,
    Failed,
}

impl View for Reply {
    type V = ReplyView;

    open spec fn view(&self) -> ReplyView {
        match self {
            Reply::Family(Some(family)) => ReplyView::Family(Some(family@)),
            Reply::Family(None) => ReplyView::Family(None),
            Reply::Room(info) => ReplyView::Room(info@),
            Reply::Number(n) => ReplyView::Number(*n),
            Reply::Created(room) => ReplyView::Created(*room),
            Reply::Done => ReplyView::Done,
            Reply::Failed => ReplyView::Failed,
        }
    }
}

impl Reply {
    /// A family in a reply is well-formed.
    pub open spec fn wf(&self) -> bool {
        self matches Reply::Family(Some(family)) ==> family.wf()
    }
}

/// A piece of outside work.
pub enum Action {
    /// Look up, in what is persisted, the family that `room` belongs to.
    /// Answered by [`Reply::Family`].
    Resolve { group: u64, room: u64 },
    /// Ask the platform about `room`. Answered by [`Reply::Room`].
    Inspect { group: u64, room: u64 },
    /// Reserve the next number of the family of `template`. Answered by
    /// [`Reply::Number`].
    Allocate { group: u64, template: u64 },
    /// Open a room with the properties of `request`. Answered by
    /// [`Reply::Created`].
    CreateRoom { group: u64, request: JsonObject },
    /// Record that `room` is the sibling that bears `number` in the family
    /// of `template`. Answered by [`Reply::Done`].
    Register { group: u64, template: u64, room: u64, number: u64 },
    /// Move `occupant` into `room`. Answered by [`Reply::Done`].
    MoveOccupant { group: u64, occupant: u64, room: u64 },
    /// Close `room`. Answered by [`Reply::Done`].
    DeleteRoom { group: u64, room: u64 },
    /// Remove the record of the sibling `room` and give `number` back to
    /// the family of `template`. Answered by [`Reply::Done`].
    Release { group: u64, template: u64, room: u64, number: u64 },
    /// Give `room` the name `name`. Answered by [`Reply::Done`].
    Rename { group: u64, room: u64, name: String },
    /// Nothing is left to do.
    Finished,
    /// The run has failed.
    Failed(Failure),
}

/// What an [`Action`] holds.
pub enum ActionView {
    Resolve { group: u64, room: u64 },
    Inspect { group: u64, room: u64 },
    Allocate { group: u64, template: u64 },
    CreateRoom { group: u64, fields: Map<Seq<char>, JsonField> },
    Register { group: u64, template: u64, room: u64, number: u64 },
    MoveOccupant { group: u64, occupant: u64, room: u64 },
    DeleteRoom { group: u64, room: u64 },
    Release { group: u64, template: u64, room: u64, number: u64 },
    Rename { group: u64, room: u64, name: Seq<char> },
    Finished,
    Failed(Failure),
}

impl View for Action {
    type V = ActionView;

    open spec fn view(&self) -> ActionView {
        match self {
            Action::Resolve { group, room } => ActionView::Resolve { group: *group, room: *room },
            Action::Inspect { group, room } => ActionView::Inspect { group: *group, room: *room },
            Action::Allocate { group, template } => ActionView::Allocate {
                group: *group,
                template: *template,
            },
            Action::CreateRoom { group, request } => ActionView::CreateRoom {
                group: *group,
                fields: json_fields(*request),
            },
            Action::Register { group, template, room, number } => ActionView::Register {
                group: *group,
                template: *template,
                room: *room,
                number: *number,
            },
            Action::MoveOccupant { group, occupant, room } => ActionView::MoveOccupant {
                group: *group,
                occupant: *occupant,
                room: *room,
            },
            Action::DeleteRoom { group, room } => ActionView::DeleteRoom {
                group: *group,
                room: *room,
            },
            Action::Release { group, template, room, number } => ActionView::Release {
                group: *group,
                template: *template,
                room: *room,
                number: *number,
            },
            Action::Rename { group, room, name } => ActionView::Rename {
                group: *group,
                room: *room,
                name: name@,
            },
            Action::Finished => ActionView::Finished,
            Action::Failed(failure) => ActionView::Failed(*failure),
        }
    }
}

/// Where a run stands: which reply it waits for.
#[derive(Debug, Clone, Copy, PartialEq, Eq)]
pub enum Stage {
    /// The family of `room` is being looked up; `joined` says whether the
    /// occupant joined the room or left it.
    Resolving { joined: bool, room: u64 },
    /// The platform is being asked about the template room, before a
    /// sibling is opened.
    InspectingTemplate,
    /// A number is being reserved.
    Allocating { category: Option<u64>, occupants: u64 },
    /// The sibling that will bear `number` is being opened.
    Creating { number: u64 },
    /// It is being recorded that `room` bears `number`.
    Registering { number: u64, room: u64 },
    /// The occupant is being moved into `room`.
    Moving { room: u64 },
    /// The platform is being asked about the sibling `room` that the
    /// occupant left.
    InspectingLeft { room: u64 },
    /// The empty sibling `room` is being closed.
    Deleting { room: u64 },
    /// The number of the closed sibling `room` is being given back.
    Releasing { room: u64 },
    /// The platform is being asked about the sibling at place `index`.
    InspectingSibling { index: usize },
    /// The sibling at place `index` is being renamed.
    Renaming { index: usize },
    /// The run has finished or failed.
    Over,
}

/// What a [`Run`] holds.
pub struct RunView {
    /// The transition that the run handles.
    pub event: ParsedVoiceStateEvent,
    /// Where the run stands.
    pub stage: Stage,
    /// Whether the room that the occupant left is still to be handled.
    pub left_pending: bool,
    /// The family at work, once it has been looked up.
    pub family: Option<FamilyView>,
}

impl RunView {
    /// The run at another stage.
    pub open spec fn at(self, stage: Stage) -> RunView {
        RunView { event: self.event, stage, left_pending: self.left_pending, family: self.family }
    }

    /// The run with another family at work.
    pub open spec fn with_family(self, family: Option<FamilyView>) -> RunView {
        RunView { event: self.event, stage: self.stage, left_pending: self.left_pending, family }
    }

    /// The run when it is over.
    pub open spec fn over(self) -> RunView {
        RunView { event: self.event, stage: Stage::Over, left_pending: false, family: None }
    }

    /// The group of the transition.
    pub open spec fn group(self) -> u64 {
        self.event.spec_guild_id()
    }
}

/// What one step comes to: the run and the cache afterwards, and the
/// action that the run asks for.
pub struct Outcome {
    pub run: RunView,
    pub cache: Map<u64, FamilyView>,
    pub action: ActionView,
}

/// The name that `pattern` makes with the numbers of `ctx`, or why the
/// pattern does not compile.
pub open spec fn name_of(pattern: Seq<char>, ctx: NameContext) -> Result<Seq<char>, CompileError> {
    match compiled(pattern) {
        Ok(tokens) => Ok(rendered(tokens, ctx)),
        Err(e) => Err(e),
    }
}

/// The run ends with `action`.
pub open spec fn ending(run: RunView, cache: Map<u64, FamilyView>, action: ActionView) -> Outcome {
    Outcome { run: run.over(), cache, action }
}

/// The run ends with `failure`.
pub open spec fn failing(run: RunView, cache: Map<u64, FamilyView>, failure: Failure) -> Outcome {
    ending(run, cache, ActionView::Failed(failure))
}

/// One room of the transition has been handled: the run goes on with the
/// room that the occupant left, where that is still to be handled, and is
/// finished otherwise.
pub open spec fn side_done(run: RunView, cache: Map<u64, FamilyView>) -> Outcome {
    match run.event.spec_left() {
        Some(room) if run.left_pending => Outcome {
            run: RunView {
                event: run.event,
                stage: Stage::Resolving { joined: false, room },
                left_pending: false,
                family: None,
            },
            cache,
            action: ActionView::Resolve { group: run.group(), room },
        },
        _ => ending(run, cache, ActionView::Finished),
    }
}

/// The siblings from place `index` on are brought up to date: the platform
/// is asked about the sibling at `index`, or, where the family has no such
/// sibling, this room of the transition has been handled.
pub open spec fn renaming_from(run: RunView, cache: Map<u64, FamilyView>, index: int) -> Outcome {
    match run.family {
        Some(family) if 0 <= index < family.members.len() => Outcome {
            run: run.at(Stage::InspectingSibling { index: index as usize }),
            cache,
            action: ActionView::Inspect { group: run.group(), room: family.members[index].id },
        },
        _ => side_done(run, cache),
    }
}

/// How a run begins: with the room that the occupant joined, where there
/// is one, and with the room they left otherwise.
pub open spec fn beginning(event: ParsedVoiceStateEvent) -> (RunView, ActionView) {
    match (event.spec_joined(), event.spec_left()) {
        (Some(room), left) => (
            RunView {
                event,
                stage: Stage::Resolving { joined: true, room },
                left_pending: left is Some,
                family: None,
            },
            ActionView::Resolve { group: event.spec_guild_id(), room },
        ),
        (None, Some(room)) => (
            RunView {
                event,
                stage: Stage::Resolving { joined: false, room },
                left_pending: false,
                family: None,
            },
            ActionView::Resolve { group: event.spec_guild_id(), room },
        ),
        (None, None) => (
            RunView { event, stage: Stage::Over, left_pending: false, family: None },
            ActionView::Finished,
        ),
    }
}

/// The numbers that the name of a new sibling shows: its number, which
/// also stands for the size of the family, and what the platform tells of
/// the template room.
pub open spec fn numbers_of_new(family: FamilyView, number: u64, occupants: u64) -> NameContext {
    NameContext { index: number, total: number, occupants, capacity: family.template.capacity }
}

/// The numbers that the name of the sibling at place `index` shows: its
/// number, the size of the family, and what the platform tells of the room.
pub open spec fn numbers_of(family: FamilyView, index: int, occupants: u64) -> NameContext {
    NameContext {
        index: family.members[index].number,
        total: family.members.len() as u64,
        occupants,
        capacity: family.template.capacity,
    }
}

/// The step that a run takes on `reply`, with `family` at work.
pub open spec fn next_with(
    run: RunView,
    family: FamilyView,
    cache: Map<u64, FamilyView>,
    reply: ReplyView,
) -> Outcome {
    let group = run.group();
    let template = family.template.id;
    match (run.stage, reply) {
        (Stage::InspectingTemplate, ReplyView::Failed) => failing(
            run,
            cache,
            Failure::TransportFailed { room: template, operation: Operation::Inspect },
        ),
        (Stage::InspectingTemplate, ReplyView::Room(info)) => match compiled(
            family.template.pattern,
        ) {
            Err(error) => failing(run, cache, Failure::Compile { template, error }),
            Ok(_) => Outcome {
                run: run.at(
                    Stage::Allocating { category: info.category, occupants: info.occupants },
                ),
                cache,
                action: ActionView::Allocate { group, template },
            },
        },
        (Stage::Allocating { .. }, ReplyView::Failed) => failing(
            run,
            cache,
            Failure::AllocationFailed { template },
        ),
        (Stage::Allocating { category, occupants }, ReplyView::Number(number)) => match name_of(
            family.template.pattern,
            numbers_of_new(family, number, occupants),
        ) {
            Err(error) => failing(run, cache, Failure::Compile { template, error }),
            Ok(name) => Outcome {
                run: run.at(Stage::Creating { number }),
                cache,
                action: ActionView::CreateRoom {
                    group,
                    fields: room_fields(name, category, family.template.capacity),
                },
            },
        },
        (Stage::Creating { .. }, ReplyView::Failed) => failing(
            run,
            cache,
            Failure::TransportFailed { room: template, operation: Operation::CreateRoom },
        ),
        (Stage::Creating { number }, ReplyView::Created(room)) => Outcome {
            run: run.at(Stage::Registering { number, room }),
            cache,
            action: ActionView::Register { group, template, room, number },
        },
        (Stage::Registering { .. }, ReplyView::Failed) => failing(
            run,
            cache,
            Failure::AllocationFailed { template },
        ),
        (Stage::Registering { number, room }, ReplyView::Done) => Outcome {
            run: run.at(Stage::Moving { room }).with_family(
                Some(
                    if family.admits(room, number) {
                        family.with_member(room, number)
                    } else {
                        family
                    },
                ),
            ),
            cache: if admits_sibling(cache, template, room, number) {
                with_sibling(cache, template, room, number)
            } else {
                cache
            },
            action: ActionView::MoveOccupant { group, occupant: run.event.spec_member(), room },
        },
        (Stage::Moving { room }, ReplyView::Failed) => failing(
            run,
            cache,
            Failure::TransportFailed { room, operation: Operation::MoveOccupant },
        ),
        (Stage::Moving { .. }, ReplyView::Done) => renaming_from(run, cache, 0),
        (Stage::InspectingLeft { room }, ReplyView::Failed) => failing(
            run,
            cache,
            Failure::TransportFailed { room, operation: Operation::Inspect },
        ),
        (Stage::InspectingLeft { room }, ReplyView::Room(info)) => if info.occupants == 0 {
            Outcome {
                run: run.at(Stage::Deleting { room }),
                cache,
                action: ActionView::DeleteRoom { group, room },
            }
        } else {
            renaming_from(run, cache, 0)
        },
        (Stage::Deleting { room }, ReplyView::Failed) => failing(
            run,
            cache,
            Failure::TransportFailed { room, operation: Operation::DeleteRoom },
        ),
        (Stage::Deleting { room }, ReplyView::Done) => if family.has_sibling(room) {
            Outcome {
                run: run.at(Stage::Releasing { room }),
                cache,
                action: ActionView::Release {
                    group,
                    template,
                    room,
                    number: family.members[family.index_of(room)].number,
                },
            }
        } else {
            failing(run, cache, Failure::OutOfTurn)
        },
        (Stage::Releasing { .. }, ReplyView::Failed) => failing(
            run,
            cache,
            Failure::AllocationFailed { template },
        ),
        (Stage::Releasing { room }, ReplyView::Done) => renaming_from(
            run.with_family(Some(family.without_member(room))),
            without_sibling(cache, room),
            0,
        ),
        (Stage::InspectingSibling { index }, ReplyView::Failed) => if index < family.members.len() {
            failing(
                run,
                cache,
                Failure::TransportFailed {
                    room: family.members[index as int].id,
                    operation: Operation::Inspect,
                },
            )
        } else {
            failing(run, cache, Failure::OutOfTurn)
        },
        (Stage::InspectingSibling { index }, ReplyView::Room(info)) => if index
            < family.members.len() {
            match name_of(
                family.template.pattern,
                numbers_of(family, index as int, info.occupants),
            ) {
                Err(error) => failing(run, cache, Failure::Compile { template, error }),
                Ok(name) => if name == info.name {
                    renaming_from(run, cache, index + 1)
                } else {
                    Outcome {
                        run: run.at(Stage::Renaming { index }),
                        cache,
                        action: ActionView::Rename {
                            group,
                            room: family.members[index as int].id,
                            name,
                        },
                    }
                },
            }
        } else {
            failing(run, cache, Failure::OutOfTurn)
        },
        (Stage::Renaming { index }, ReplyView::Failed) => if index < family.members.len() {
            failing(
                run,
                cache,
                Failure::TransportFailed {
                    room: family.members[index as int].id,
                    operation: Operation::Rename,
                },
            )
        } else {
            failing(run, cache, Failure::OutOfTurn)
        },
        (Stage::Renaming { index }, ReplyView::Done) => renaming_from(run, cache, index + 1),
        _ => failing(run, cache, Failure::OutOfTurn),
    }
}

/// The step that a run takes on `reply`.
pub open spec fn next(run: RunView, cache: Map<u64, FamilyView>, reply: ReplyView) -> Outcome {
    match (run.stage, reply, run.family) {
        (Stage::Resolving { room, .. }, ReplyView::Failed, _) => failing(
            run,
            cache,
            Failure::LookupFailed { room },
        ),
        (Stage::Resolving { .. }, ReplyView::Family(None), _) => side_done(run, cache),
        (Stage::Resolving { joined, room }, ReplyView::Family(Some(family)), _) => {
            let found = run.with_family(Some(family));
            if joined && family.template.id == room {
                Outcome {
                    run: found.at(Stage::InspectingTemplate),
                    cache,
                    action: ActionView::Inspect { group: run.group(), room },
                }
            } else if !joined && family.has_sibling(room) {
                Outcome {
                    run: found.at(Stage::InspectingLeft { room }),
                    cache,
                    action: ActionView::Inspect { group: run.group(), room },
                }
            } else {
                renaming_from(found, cache, 0)
            }
        },
        (Stage::Resolving { .. }, _, _) => failing(run, cache, Failure::OutOfTurn),
        (Stage::Over, _, _) => failing(run, cache, Failure::OutOfTurn),
        (_, _, Some(family)) => next_with(run, family, cache, reply),
        (_, _, None) => failing(run, cache, Failure::OutOfTurn),
    }
}


/// The handling of one presence transition, between two pieces of outside
/// work.
#[derive(Debug)]
pub struct Run {
    event: ParsedVoiceStateEvent,
    stage: Stage,
    left_pending: bool,
    family: Option<Family>,
}

impl View for Run {
    type V = RunView;

    closed spec fn view(&self) -> RunView {
        RunView {
            event: self.event,
            stage: self.stage,
            left_pending: self.left_pending,
            family: match self.family {
                Some(family) => Some(family@),
                None => None,
            },
        }
    }
}

impl Run {
    /// The family at work, if there is one, is well-formed.
    pub closed spec fn wf(&self) -> bool {
        self.family matches Some(family) ==> family.wf()
    }

    /// Begins to handle `event`: the run, and the first piece of work that
    /// it asks for.
    pub fn begin(event: ParsedVoiceStateEvent) -> (r: (Run, Action))
        ensures
            r.0.wf(),
            (r.0@, r.1@) == beginning(event),
    {
        let group = event.guild_id();
        match (event.joined(), event.left()) {
            (Some(room), left) => (
                Run {
                    event,
                    stage: Stage::Resolving { joined: true, room },
                    left_pending: left.is_some(),
                    family: None,
                },
                Action::Resolve { group, room },
            ),
            (None, Some(room)) => (
                Run {
                    event,
                    stage: Stage::Resolving { joined: false, room },
                    left_pending: false,
                    family: None,
                },
                Action::Resolve { group, room },
            ),
            (None, None) => (
                Run { event, stage: Stage::Over, left_pending: false, family: None },
                Action::Finished,
            ),
        }
    }

    /// Whether the run has finished or failed.
    pub fn is_over(&self) -> (over: bool)
        ensures
            over == (self@.stage is Over),
    {
        match self.stage {
            Stage::Over => true,
            _ => false,
        }
    }

    /// Where the run stands.
    pub fn stage(&self) -> (stage: Stage)
        ensures
            stage == self@.stage,
    {
        self.stage
    }

    fn fail(self, Ghost(cache): Ghost<Map<u64, FamilyView>>, failure: Failure) -> (r: (Run, Action))
        ensures
            r.0.wf(),
            (Outcome { run: r.0@, cache, action: r.1@ }) == failing(self@, cache, failure),
    {
        (
            Run { event: self.event, stage: Stage::Over, left_pending: false, family: None },
            Action::Failed(failure),
        )
    }

    fn side_done(self, Ghost(cache): Ghost<Map<u64, FamilyView>>) -> (r: (Run, Action))
        ensures
            r.0.wf(),
            (Outcome { run: r.0@, cache, action: r.1@ }) == side_done(self@, cache),
    {
        let group = self.event.guild_id();
        match self.event.left() {
            Some(room) if self.left_pending => (
                Run {
                    event: self.event,
                    stage: Stage::Resolving { joined: false, room },
                    left_pending: false,
                    family: None,
                },
                Action::Resolve { group, room },
            ),
            _ => (
                Run { event: self.event, stage: Stage::Over, left_pending: false, family: None },
                Action::Finished,
            ),
        }
    }

    fn renaming_from(self, Ghost(cache): Ghost<Map<u64, FamilyView>>, index: usize) -> (r: (
        Run,
        Action,
    ))
        requires
            self.wf(),
        ensures
            r.0.wf(),
            (Outcome { run: r.0@, cache, action: r.1@ }) == renaming_from(
                self@,
                cache,
                index as int,
            ),
    {
        let group = self.event.guild_id();
        let room = match &self.family {
            Some(family) => if index < family.len() {
                Some(family.member(index).id)
            } else {
                None
            },
            None => None,
        };
        match room {
            Some(room) => (
                Run {
                    event: self.event,
                    stage: Stage::InspectingSibling { index },
                    left_pending: self.left_pending,
                    family: self.family,
                },
                Action::Inspect { group, room },
            ),
            None => self.side_done(Ghost(cache)),
        }
    }

    /// Takes in how the work went that the run had asked for, and says
    /// which work comes next. The cache learns of a sibling once it is
    /// recorded, and forgets one once its number is given back.
    pub fn step(self, cache: &mut FamilyState, reply: Reply) -> (r: (Run, Action))
        requires
            self.wf(),
            old(cache).wf(),
            reply.wf(),
        ensures
            r.0.wf(),
            final(cache).wf(),
            (Outcome { run: r.0@, cache: final(cache)@, action: r.1@ }) == next(
                self@,
                old(cache)@,
                reply@,
            ),
    {
        let ghost before = cache@;
        let group = self.event.guild_id();
        match self.stage {
            Stage::Over => self.fail(Ghost(before), Failure::OutOfTurn),
            Stage::Resolving { joined, room } => match reply {
                Reply::Failed => self.fail(Ghost(before), Failure::LookupFailed { room }),
                Reply::Family(None) => self.side_done(Ghost(before)),
                Reply::Family(Some(family)) => {
                    let is_template = family.id() == room;
                    let is_sibling = family.position_of(room).is_some();
                    let found = Run {
                        event: self.event,
                        stage: self.stage,
                        left_pending: self.left_pending,
                        family: Some(family),
                    };
                    if joined && is_template {
                        (
                            Run {
                                event: found.event,
                                stage: Stage::InspectingTemplate,
                                left_pending: found.left_pending,
                                family: found.family,
                            },
                            Action::Inspect { group, room },
                        )
                    } else if !joined && is_sibling {
                        (
                            Run {
                                event: found.event,
                                stage: Stage::InspectingLeft { room },
                                left_pending: found.left_pending,
                                family: found.family,
                            },
                            Action::Inspect { group, room },
                        )
                    } else {
                        found.renaming_from(Ghost(before), 0)
                    }
                },
                _ => self.fail(Ghost(before), Failure::OutOfTurn),
            },
            _ => {
                let Run { event, stage, left_pending, family } = self;
                match family {
                    None => {
                        let run = Run { event, stage, left_pending, family: None };
                        run.fail(Ghost(before), Failure::OutOfTurn)
                    },
                    Some(family) => Run::step_with(event, stage, left_pending, family, cache, reply),
                }
            },
        }
    }

    fn step_with(
        event: ParsedVoiceStateEvent,
        stage: Stage,
        left_pending: bool,
        family: Family,
        cache: &mut FamilyState,
        reply: Reply,
    ) -> (r: (Run, Action))
        requires
            family.wf(),
            old(cache).wf(),
            !(stage is Over),
            !(stage is Resolving),
        ensures
            r.0.wf(),
            final(cache).wf(),
            (Outcome { run: r.0@, cache: final(cache)@, action: r.1@ }) == next_with(
                (RunView { event, stage, left_pending, family: Some(family@) }),
                family@,
                old(cache)@,
                reply@,
            ),
    {
        let ghost before = cache@;
        let group = event.guild_id();
        let template = family.id();
        let mut family = family;
        match (stage, reply) {
            (Stage::InspectingTemplate, Reply::Failed) => {
                let run = Run { event, stage, left_pending, family: Some(family) };
                run.fail(
                    Ghost(before),
                    Failure::TransportFailed { room: template, operation: Operation::Inspect },
                )
            },
            (Stage::InspectingTemplate, Reply::Room(info)) => {
                match parse_template(family.template().pattern.as_str()) {
                    Err(error) => {
                        let run = Run { event, stage, left_pending, family: Some(family) };
                        run.fail(Ghost(before), Failure::Compile { template, error })
                    },
                    Ok(_) => (
                        Run {
                            event,
                            stage: Stage::Allocating {
                                category: info.category,
                                occupants: info.occupants,
                            },
                            left_pending,
                            family: Some(family),
                        },
                        Action::Allocate { group, template },
                    ),
                }
            },
            (Stage::Allocating { .. }, Reply::Failed) => {
                let run = Run { event, stage, left_pending, family: Some(family) };
                run.fail(Ghost(before), Failure::AllocationFailed { template })
            },
            (Stage::Allocating { category, occupants }, Reply::Number(number)) => {
                let numbers = NameContext {
                    index: number,
                    total: number,
                    occupants,
                    capacity: family.template().capacity,
                };
                match render_pattern(family.template().pattern.as_str(), &numbers) {
                    Err(error) => {
                        let run = Run { event, stage, left_pending, family: Some(family) };
                        run.fail(Ghost(before), Failure::Compile { template, error })
                    },
                    Ok(name) => {
                        let request = room_request(
                            name.as_str(),
                            category,
                            family.template().capacity,
                        );
                        (
                            Run {
                                event,
                                stage: Stage::Creating { number },
                                left_pending,
                                family: Some(family),
                            },
                            Action::CreateRoom { group, request },
                        )
                    },
                }
            },
            (Stage::Creating { .. }, Reply::Failed) => {
                let run = Run { event, stage, left_pending, family: Some(family) };
                run.fail(
                    Ghost(before),
                    Failure::TransportFailed { room: template, operation: Operation::CreateRoom },
                )
            },
            (Stage::Creating { number }, Reply::Created(room)) => (
                Run {
                    event,
                    stage: Stage::Registering { number, room },
                    left_pending,
                    family: Some(family),
                },
                Action::Register { group, template, room, number },
            ),
            (Stage::Registering { .. }, Reply::Failed) => {
                let run = Run { event, stage, left_pending, family: Some(family) };
                run.fail(Ghost(before), Failure::AllocationFailed { template })
            },
            (Stage::Registering { number, room }, Reply::Done) => {
                family.insert(room, number);
                cache.insert_sibling(template, room, number);
                (
                    Run { event, stage: Stage::Moving { room }, left_pending, family: Some(family) },
                    Action::MoveOccupant { group, occupant: event.member(), room },
                )
            },
            (Stage::Moving { room }, Reply::Failed) => {
                let run = Run { event, stage, left_pending, family: Some(family) };
                run.fail(
                    Ghost(before),
                    Failure::TransportFailed { room, operation: Operation::MoveOccupant },
                )
            },
            (Stage::Moving { .. }, Reply::Done) => {
                let run = Run { event, stage, left_pending, family: Some(family) };
                run.renaming_from(Ghost(before), 0)
            },
            (Stage::InspectingLeft { room }, Reply::Failed) => {
                let run = Run { event, stage, left_pending, family: Some(family) };
                run.fail(
                    Ghost(before),
                    Failure::TransportFailed { room, operation: Operation::Inspect },
                )
            },
            (Stage::InspectingLeft { room }, Reply::Room(info)) => {
                if info.occupants == 0 {
                    (
                        Run {
                            event,
                            stage: Stage::Deleting { room },
                            left_pending,
                            family: Some(family),
                        },
                        Action::DeleteRoom { group, room },
                    )
                } else {
                    let run = Run { event, stage, left_pending, family: Some(family) };
                    run.renaming_from(Ghost(before), 0)
                }
            },
            (Stage::Deleting { room }, Reply::Failed) => {
                let run = Run { event, stage, left_pending, family: Some(family) };
                run.fail(
                    Ghost(before),
                    Failure::TransportFailed { room, operation: Operation::DeleteRoom },
                )
            },
            (Stage::Deleting { room }, Reply::Done) => {
                match family.position_of(room) {
                    Some(at) => {
                        let number = family.member(at).number;
                        (
                            Run {
                                event,
                                stage: Stage::Releasing { room },
                                left_pending,
                                family: Some(family),
                            },
                            Action::Release { group, template, room, number },
                        )
                    },
                    None => {
                        let run = Run { event, stage, left_pending, family: Some(family) };
                        run.fail(Ghost(before), Failure::OutOfTurn)
                    },
                }
            },
            (Stage::Releasing { .. }, Reply::Failed) => {
                let run = Run { event, stage, left_pending, family: Some(family) };
                run.fail(Ghost(before), Failure::AllocationFailed { template })
            },
            (Stage::Releasing { room }, Reply::Done) => {
                family.remove(room);
                cache.remove_sibling(room);
                let run = Run { event, stage, left_pending, family: Some(family) };
                run.renaming_from(Ghost(cache@), 0)
            },
            (Stage::InspectingSibling { index }, Reply::Failed) => {
                if index < family.len() {
                    let room = family.member(index).id;
                    let run = Run { event, stage, left_pending, family: Some(family) };
                    run.fail(
                        Ghost(before),
                        Failure::TransportFailed { room, operation: Operation::Inspect },
                    )
                } else {
                    let run = Run { event, stage, left_pending, family: Some(family) };
                    run.fail(Ghost(before), Failure::OutOfTurn)
                }
            },
            (Stage::InspectingSibling { index }, Reply::Room(info)) => {
                if index < family.len() {
                    let member = family.member(index);
                    let numbers = NameContext {
                        index: member.number,
                        total: family.len() as u64,
                        occupants: info.occupants,
                        capacity: family.template().capacity,
                    };
                    match render_pattern(family.template().pattern.as_str(), &numbers) {
                        Err(error) => {
                            let run = Run { event, stage, left_pending, family: Some(family) };
                            run.fail(Ghost(before), Failure::Compile { template, error })
                        },
                        Ok(name) => {
                            if name == info.name {
                                let run = Run { event, stage, left_pending, family: Some(family) };
                                run.renaming_from(Ghost(before), index + 1)
                            } else {
                                (
                                    Run {
                                        event,
                                        stage: Stage::Renaming { index },
                                        left_pending,
                                        family: Some(family),
                                    },
                                    Action::Rename { group, room: member.id, name },
                                )
                            }
                        },
                    }
                } else {
                    let run = Run { event, stage, left_pending, family: Some(family) };
                    run.fail(Ghost(before), Failure::OutOfTurn)
                }
            },
            (Stage::Renaming { index }, Reply::Failed) => {
                if index < family.len() {
                    let room = family.member(index).id;
                    let run = Run { event, stage, left_pending, family: Some(family) };
                    run.fail(
                        Ghost(before),
                        Failure::TransportFailed { room, operation: Operation::Rename },
                    )
                } else {
                    let run = Run { event, stage, left_pending, family: Some(family) };
                    run.fail(Ghost(before), Failure::OutOfTurn)
                }
            },
            (Stage::Renaming { index }, Reply::Done) => {
                let more = index < family.len();
                let run = Run { event, stage, left_pending, family: Some(family) };
                if more {
                    run.renaming_from(Ghost(before), index + 1)
                } else {
                    run.side_done(Ghost(before))
                }
            },
            _ => {
                let run = Run { event, stage, left_pending, family: Some(family) };
                run.fail(Ghost(before), Failure::OutOfTurn)
            },
        }
    }
}


/// Outside work that fails ends the run at once, with a failure and with
/// the cache as it was: nothing is tried again.
pub proof fn lemma_failure_ends_run(run: RunView, cache: Map<u64, FamilyView>)
    ensures
        next(run, cache, ReplyView::Failed).action is Failed,
        next(run, cache, ReplyView::Failed).run.stage is Over,
        next(run, cache, ReplyView::Failed).cache == cache,
{
}

/// A run that is over stays over: whatever reply comes, it asks for no
/// more work and leaves the cache as it was.
pub proof fn lemma_over_stays_over(run: RunView, cache: Map<u64, FamilyView>, reply: ReplyView)
    requires
        run.stage is Over,
    ensures
        next(run, cache, reply).action == ActionView::Failed(Failure::OutOfTurn),
        next(run, cache, reply).run.stage is Over,
        next(run, cache, reply).cache == cache,
{
}

/// A sibling is renamed exactly where its name is not what the pattern
/// makes, and then to what the pattern makes. A room that bears the right
/// name costs the platform no call.
pub proof fn lemma_rename_only_when_needed(
    run: RunView,
    cache: Map<u64, FamilyView>,
    info: RoomInfoView,
    index: usize,
    family: FamilyView,
    name: Seq<char>,
)
    requires
        run.stage == (Stage::InspectingSibling { index }),
        run.family == Some(family),
        index < family.members.len(),
        name_of(family.template.pattern, numbers_of(family, index as int, info.occupants)) == Ok::<
            Seq<char>,
            CompileError,
        >(name),
    ensures
        next(run, cache, ReplyView::Room(info)).action is Rename <==> info.name != name,
        info.name != name ==> next(run, cache, ReplyView::Room(info)).action == (
        ActionView::Rename { group: run.group(), room: family.members[index as int].id, name }),
{
    if info.name == name {
        let after = renaming_from(run, cache, index + 1);
    }
}

/// A sibling that the occupant left is closed exactly where the platform
/// counts no occupant in it.
pub proof fn lemma_close_only_when_empty(
    run: RunView,
    cache: Map<u64, FamilyView>,
    info: RoomInfoView,
    room: u64,
    family: FamilyView,
)
    requires
        run.stage == (Stage::InspectingLeft { room }),
        run.family == Some(family),
    ensures
        next(run, cache, ReplyView::Room(info)).action is DeleteRoom <==> info.occupants == 0,
        info.occupants == 0 ==> next(run, cache, ReplyView::Room(info)).action == (
        ActionView::DeleteRoom { group: run.group(), room }),
{
    if info.occupants != 0 {
        let after = renaming_from(run, cache, 0);
    }
}

/// A number is given back only for a sibling that has been closed: the
/// run asks for it in no other place. In particular a number that was
/// reserved stays reserved when the work after it fails.
pub proof fn lemma_release_follows_close(run: RunView, cache: Map<u64, FamilyView>, reply: ReplyView)
    requires
        next(run, cache, reply).action is Release,
    ensures
        run.stage is Deleting,
        reply is Done,
{
    match run.family {
        Some(family) => {
            let rename0 = renaming_from(run, cache, 0);
            let found = renaming_from(run.with_family(Some(family)), cache, 0);
        },
        None => {},
    }
}

/// The cache changes only when a new sibling has been recorded and when
/// the number of a closed sibling has been given back.
pub proof fn lemma_cache_changes(run: RunView, cache: Map<u64, FamilyView>, reply: ReplyView)
    requires
        next(run, cache, reply).cache != cache,
    ensures
        reply is Done,
        run.stage is Registering || run.stage is Releasing,
{
}

/// A step keeps what it works on in order: where the cache, the family at
/// work and the family in the reply are well-formed before, the cache and
/// the family at work are well-formed after.
pub proof fn lemma_step_keeps_order(run: RunView, cache: Map<u64, FamilyView>, reply: ReplyView)
    requires
        state_wf(cache),
        run.family matches Some(family) ==> family.wf(),
        reply matches ReplyView::Family(Some(family)) ==> family.wf(),
    ensures
        state_wf(next(run, cache, reply).cache),
        next(run, cache, reply).run.family matches Some(family) ==> family.wf(),
{
    match (run.stage, reply, run.family) {
        (Stage::Registering { number, room }, ReplyView::Done, Some(family)) => {
            if admits_sibling(cache, family.template.id, room, number) {
                lemma_with_sibling(cache, family.template.id, room, number);
            }
            if family.admits(room, number) {
                lemma_with_member_wf(family, room, number);
            }
        },
        (Stage::Releasing { room }, ReplyView::Done, Some(family)) => {
            lemma_without_sibling(cache, room);
            lemma_without_member_wf(family, room);
        },
        _ => {},
    }
}

/// How many rooms of the transition a run has still to look up.
pub open spec fn lookups_left(run: RunView) -> nat {
    let pending: nat = if run.left_pending && run.event.spec_left() is Some {
        1
    } else {
        0
    };
    match run.stage {
        Stage::Resolving { .. } => 1 + pending,
        _ => pending,
    }
}

/// A bound on the replies that a run can still take in before the room at
/// hand has been handled.
pub open spec fn replies_left(run: RunView) -> nat {
    let n: int = match run.family {
        Some(family) => family.members.len() as int,
        None => 0,
    };
    let bound: int = match run.stage {
        Stage::Resolving { .. } => 0,
        Stage::Over => 0,
        Stage::InspectingTemplate => 2 * n + 8,
        Stage::Allocating { .. } => 2 * n + 7,
        Stage::Creating { .. } => 2 * n + 6,
        Stage::Registering { .. } => 2 * n + 5,
        Stage::Moving { .. } => 2 * n + 2,
        Stage::InspectingLeft { .. } => 2 * n + 4,
        Stage::Deleting { .. } => 2 * n + 3,
        Stage::Releasing { .. } => 2 * n + 2,
        Stage::InspectingSibling { index } => 2 * (n - index) + 1,
        Stage::Renaming { index } => 2 * (n - index),
    };
    if run.stage is Resolving || run.stage is Over {
        0
    } else if bound < 1 {
        1
    } else {
        bound as nat
    }
}

/// Whether a run with the first measures comes before a run with the
/// second measures: it has fewer rooms to look up, or as many and fewer
/// replies to take in.
pub open spec fn comes_before(lookups: nat, replies: nat, than_lookups: nat, than_replies: nat) -> bool {
    lookups < than_lookups || (lookups == than_lookups && replies < than_replies)
}

/// Every step brings a run nearer to its end: a run that is not over has,
/// after any reply, fewer rooms to look up, or as many and fewer replies
/// to take in. So no run goes on for ever, and none comes back to where it
/// was. (The family at work must be one that a machine can hold.)
pub proof fn lemma_run_ends(run: RunView, cache: Map<u64, FamilyView>, reply: ReplyView)
    requires
        !(run.stage is Over),
        run.family matches Some(family) ==> family.members.len() <= usize::MAX,
    ensures
        comes_before(
            lookups_left(next(run, cache, reply).run),
            replies_left(next(run, cache, reply).run),
            lookups_left(run),
            replies_left(run),
        ),
{
    match (run.stage, run.family) {
        (Stage::Releasing { room }, Some(family)) => {
            assert(family.without_member(room).members.len() <= family.members.len()) by {
                if family.has_sibling(room) {
                    let at = family.index_of(room);
                }
            }
        },
        _ => {},
    }
}

impl Operation {
    /// The words for the operation in a message.
    pub open spec fn words(&self) -> Seq<char> {
        match self {
            Operation::Inspect => "look at"@,
            Operation::CreateRoom => "open a sibling of"@,
            Operation::MoveOccupant => "move the occupant into"@,
            Operation::DeleteRoom => "close"@,
            Operation::Rename => "rename"@,
        }
    }
}

impl Failure {
    /// The text of [`Failure::message`].
    pub open spec fn message_text(&self) -> Seq<char> {
        match self {
            Failure::Compile { template, error } => "the pattern of template room "@ + decimal(
                *template as nat,
            ) + " does not compile: "@ + error.message_text(),
            Failure::LookupFailed { room } => "the family of room "@ + decimal(*room as nat)
                + " could not be looked up"@,
            Failure::AllocationFailed { template } =>
                "the numbers of the family of template room "@ + decimal(*template as nat)
                + " could not be changed"@,
            Failure::TransportFailed { room, operation } => "the platform failed to "@
                + operation.words() + " room "@ + decimal(*room as nat),
            Failure::OutOfTurn => "a reply came that answers nothing that was asked"@,
        }
    }

    /// A sentence for the operator: which work failed, and on which room.
    pub fn message(&self) -> (text: String)
        ensures
            text@ == self.message_text(),
    {
        let mut text = String::new();
        match self {
            Failure::Compile { template, error } => {
                push_chars(&mut text, "the pattern of template room ");
                push_decimal(&mut text, *template);
                push_chars(&mut text, " does not compile: ");
                let detail = error.message();
                push_chars(&mut text, detail.as_str());
            },
            Failure::LookupFailed { room } => {
                push_chars(&mut text, "the family of room ");
                push_decimal(&mut text, *room);
                push_chars(&mut text, " could not be looked up");
            },
            Failure::AllocationFailed { template } => {
                push_chars(&mut text, "the numbers of the family of template room ");
                push_decimal(&mut text, *template);
                push_chars(&mut text, " could not be changed");
            },
            Failure::TransportFailed { room, operation } => {
                push_chars(&mut text, "the platform failed to ");
                match operation {
                    Operation::Inspect => push_chars(&mut text, "look at"),
                    Operation::CreateRoom => push_chars(&mut text, "open a sibling of"),
                    Operation::MoveOccupant => push_chars(&mut text, "move the occupant into"),
                    Operation::DeleteRoom => push_chars(&mut text, "close"),
                    Operation::Rename => push_chars(&mut text, "rename"),
                }
                push_chars(&mut text, " room ");
                push_decimal(&mut text, *room);
            },
            Failure::OutOfTurn => {
                push_chars(&mut text, "a reply came that answers nothing that was asked");
            },
        }
        text
    }
}

} // verus!
