//! What follows when a room disappears from the platform.
//!
//! A sibling room that disappears gives its number back. A template room
//! that disappears takes its family with it: every sibling is closed, and
//! only when all are closed is the family itself forgotten. Closing the
//! siblings may fail for some and succeed for others; the failures are
//! gathered into one [`AggregateFailure`], and the siblings that were
//! closed are forgotten whatever became of the others.

use vstd::prelude::*;
use crate::cache::{
    is_sibling, lemma_without_sibling, sibling_owner, state_wf, without_sibling, FamilyState,
};
use crate::family::{Family, FamilyView};
use crate::text::{decimal, push_chars, push_decimal};

verus! {

/// What a room that disappeared means for the families.
#[derive(Debug, PartialEq, Eq)]
pub enum Removal {
    /// It was the template room `template`: its siblings are to be closed.
    Template { template: u64, siblings: Vec<u64> },
    /// It was the sibling `room` that bore `number` in the family of
    /// `template`: the number is to be given back.
    Sibling { template: u64, room: u64, number: u64 },
    /// No family knows it.
    Unknown,
}

/// What a [`Removal`] holds.
pub enum RemovalView {
    Template { template: u64, siblings: Seq<u64> },
    Sibling { template: u64, room: u64, number: u64 },
    Unknown,
}

impl View for Removal {
    type V = RemovalView;

    open spec fn view(&self) -> RemovalView {
        match self {
            Removal::Template { template, siblings } => RemovalView::Template {
                template: *template,
                siblings: siblings@,
            },
            Removal::Sibling { template, room, number } => RemovalView::Sibling {
                template: *template,
                room: *room,
                number: *number,
            },
            Removal::Unknown => RemovalView::Unknown,
        }
    }
}

/// What the disappearance of `room` means, where `family` is the family
/// that knows the room, if any does.
pub open spec fn removal_of(family: Option<FamilyView>, room: u64) -> RemovalView {
    match family {
        None => RemovalView::Unknown,
        Some(family) => if family.template.id == room {
            RemovalView::Template { template: room, siblings: family.ids() }
        } else if family.has_sibling(room) {
            RemovalView::Sibling {
                template: family.template.id,
                room,
                number: family.members[family.index_of(room)].number,
            }
        } else {
            RemovalView::Unknown
        },
    }
}

/// Says what the disappearance of `room` means, where `family` is the
/// family that knows the room, if any does.
pub fn plan_removal(family: Option<&Family>, room: u64) -> (removal: Removal)
    requires
        family matches Some(f) ==> f.wf(),
    ensures
        removal@ == removal_of(
            match family {
                Some(f) => Some(f@),
                None => None,
            },
            room,
        ),
{
    match family {
        None => Removal::Unknown,
        Some(family) => {
            if family.id() == room {
                let siblings = family.ids();
                Removal::Template { template: room, siblings }
            } else {
                match family.position_of(room) {
                    Some(at) => Removal::Sibling {
                        template: family.id(),
                        room,
                        number: family.member(at).number,
                    },
                    None => Removal::Unknown,
                }
            }
        },
    }
}

/// How closing one sibling went.
#[derive(Debug, Clone, Copy, PartialEq, Eq, Structural)]
pub struct DeleteOutcome {
    /// The sibling.
    pub room: u64,
    /// Whether the platform closed it.
    pub deleted: bool,
}

/// Closing the siblings of a template room failed for at least one of
/// them.
#[derive(Debug, PartialEq, Eq)]
pub struct AggregateFailure {
    /// The template room.
    pub template: u64,
    /// How closing went, for every sibling: for those that were closed and
    /// for those that were not.
    pub outcomes: Vec<DeleteOutcome>,
}

/// Whether every sibling was closed.
pub open spec fn all_deleted(outcomes: Seq<DeleteOutcome>) -> bool {
    forall|k: int| 0 <= k < outcomes.len() ==> (#[trigger] outcomes[k]).deleted
}

/// `families` without the siblings that `outcomes` report as closed.
pub open spec fn forgotten(families: Map<u64, FamilyView>, outcomes: Seq<DeleteOutcome>) -> Map<
    u64,
    FamilyView,
>
    decreases outcomes.len(),
{
    if outcomes.len() == 0 {
        families
    } else {
        let earlier = forgotten(families, outcomes.drop_last());
        if outcomes.last().deleted {
            without_sibling(earlier, outcomes.last().room)
        } else {
            earlier
        }
    }
}

/// Forgetting closed siblings keeps the families well-formed, makes no
/// room a sibling that was none, and leaves no closed room a sibling,
/// whatever the other outcomes are.
pub proof fn lemma_forgotten(families: Map<u64, FamilyView>, outcomes: Seq<DeleteOutcome>)
    requires
        state_wf(families),
    ensures
        state_wf(forgotten(families, outcomes)),
        forgotten(families, outcomes).dom() == families.dom(),
        forall|r: u64, t: u64| #[trigger]
            sibling_owner(forgotten(families, outcomes), r, t) ==> sibling_owner(families, r, t),
        forall|k: int|
            0 <= k < outcomes.len() && (#[trigger] outcomes[k]).deleted ==> !is_sibling(
                forgotten(families, outcomes),
                outcomes[k].room,
            ),
        forall|r: u64, t: u64|
            #![trigger sibling_owner(families, r, t)]
            sibling_owner(families, r, t) && (forall|k: int|
                0 <= k < outcomes.len() ==> !((#[trigger] outcomes[k]).deleted && outcomes[k].room
                    == r)) ==> sibling_owner(forgotten(families, outcomes), r, t),
    decreases outcomes.len(),
{
    if outcomes.len() > 0 {
        let earlier_outcomes = outcomes.drop_last();
        let earlier = forgotten(families, earlier_outcomes);
        let last = outcomes.last();
        lemma_forgotten(families, earlier_outcomes);
        lemma_without_sibling(earlier, last.room);
        let after = forgotten(families, outcomes);
        assert forall|k: int| 0 <= k < outcomes.len() && (#[trigger] outcomes[k]).deleted implies !is_sibling(
            after,
            outcomes[k].room,
        ) by {
            let room = outcomes[k].room;
            if is_sibling(after, room) {
                let t = choose|t: u64| sibling_owner(after, room, t);
                if k < outcomes.len() - 1 {
                    assert(earlier_outcomes[k] == outcomes[k]);
                }
            }
        }
        assert forall|r: u64, t: u64|
            #![trigger sibling_owner(families, r, t)]
            sibling_owner(families, r, t) && (forall|k: int|
                0 <= k < outcomes.len() ==> !((#[trigger] outcomes[k]).deleted && outcomes[k].room
                    == r)) implies sibling_owner(after, r, t) by {
            assert forall|k: int| 0 <= k < earlier_outcomes.len() implies !((
            #[trigger] earlier_outcomes[k]).deleted && earlier_outcomes[k].room == r) by {}
        }
    }
}

/// The rooms among `outcomes` that were closed, in order.
pub open spec fn closed_rooms(outcomes: Seq<DeleteOutcome>) -> Seq<u64>
    decreases outcomes.len(),
{
    if outcomes.len() == 0 {
        Seq::empty()
    } else if outcomes.last().deleted {
        closed_rooms(outcomes.drop_last()).push(outcomes.last().room)
    } else {
        closed_rooms(outcomes.drop_last())
    }
}

/// The rooms that were closed, in order: those whose records can be
/// deleted.
pub fn deleted_rooms(outcomes: &Vec<DeleteOutcome>) -> (rooms: Vec<u64>)
    ensures
        rooms@ == closed_rooms(outcomes@),
{
    let mut rooms: Vec<u64> = Vec::new();
    let mut i: usize = 0;
    while i < outcomes.len()
        invariant
            i <= outcomes.len(),
            rooms@ == closed_rooms(outcomes@.take(i as int)),
        decreases outcomes.len() - i,
    {
        proof {
            assert(outcomes@.take(i + 1).drop_last() == outcomes@.take(i as int));
        }
        if outcomes[i].deleted {
            rooms.push(outcomes[i].room);
        }
        i = i + 1;
    }
    assert(outcomes@.take(outcomes.len() as int) == outcomes@);
    rooms
}

/// Takes in how closing the siblings of `template` went. The siblings that
/// were closed are forgotten. Where all were closed the answer is `Ok`,
/// and the family itself can be forgotten next; otherwise the answer names
/// every outcome.
pub fn settle_cascade(cache: &mut FamilyState, template: u64, outcomes: Vec<DeleteOutcome>) -> (r:
    Result<(), AggregateFailure>)
    requires
        old(cache).wf(),
    ensures
        final(cache).wf(),
        final(cache)@ == forgotten(old(cache)@, outcomes@),
        r is Ok <==> all_deleted(outcomes@),
        r matches Err(failure) ==> failure.template == template && failure.outcomes@ == outcomes@,
        forall|k: int|
            0 <= k < outcomes.len() && (#[trigger] outcomes[k]).deleted ==> !is_sibling(
                final(cache)@,
                outcomes[k].room,
            ),
{
    let ghost before = cache@;
    proof {
        cache.lemma_wf();
    }
    let mut all = true;
    let mut i: usize = 0;
    while i < outcomes.len()
        invariant
            i <= outcomes.len(),
            state_wf(before),
            cache.wf(),
            cache@ == forgotten(before, outcomes@.take(i as int)),
            all == all_deleted(outcomes@.take(i as int)),
        decreases outcomes.len() - i,
    {
        let outcome = outcomes[i];
        proof {
            assert(outcomes@.take(i + 1).drop_last() == outcomes@.take(i as int));
            assert(outcomes@.take(i + 1).last() == outcome);
        }
        if outcome.deleted {
            cache.remove_sibling(outcome.room);
            assert(all_deleted(outcomes@.take(i as int)) ==> all_deleted(outcomes@.take(i + 1)))
                by {
                if all_deleted(outcomes@.take(i as int)) {
                    assert forall|k: int| 0 <= k < i + 1 implies (#[trigger] outcomes@.take(
                        i + 1,
                    )[k]).deleted by {}
                }
            }
            assert(all_deleted(outcomes@.take(i + 1)) ==> all_deleted(outcomes@.take(i as int)))
                by {
                if all_deleted(outcomes@.take(i + 1)) {
                    assert forall|k: int| 0 <= k < i implies (#[trigger] outcomes@.take(
                        i as int,
                    )[k]).deleted by {}
                }
            }
        } else {
            all = false;
        }
        i = i + 1;
    }
    proof {
        assert(outcomes@.take(outcomes.len() as int) == outcomes@);
        lemma_forgotten(before, outcomes@);
    }
    if all {
        Ok(())
    } else {
        Err(AggregateFailure { template, outcomes })
    }
}

impl AggregateFailure {
    /// The part of a message that tells of the outcomes from place `from`
    /// on.
    pub open spec fn outcomes_text(outcomes: Seq<DeleteOutcome>, from: int) -> Seq<char>
        decreases outcomes.len() - from,
    {
        if from < 0 || from >= outcomes.len() {
            Seq::empty()
        } else {
            "; room "@ + decimal(outcomes[from].room as nat) + (if outcomes[from].deleted {
                " was closed"@
            } else {
                " was not closed"@
            }) + Self::outcomes_text(outcomes, from + 1)
        }
    }

    /// The text of [`AggregateFailure::message`].
    pub open spec fn message_text(&self) -> Seq<char> {
        "not every sibling of template room "@ + decimal(self.template as nat)
            + " could be closed"@ + Self::outcomes_text(self.outcomes@, 0)
    }

    /// A sentence for the operator that names every sibling and says
    /// whether it was closed.
    pub fn message(&self) -> (text: String)
        ensures
            text@ == self.message_text(),
    {
        let mut text = String::new();
        push_chars(&mut text, "not every sibling of template room ");
        push_decimal(&mut text, self.template);
        push_chars(&mut text, " could be closed");
        let mut i: usize = self.outcomes.len();
        let mut rest = String::new();
        while i > 0
            invariant
                i <= self.outcomes.len(),
                rest@ == Self::outcomes_text(self.outcomes@, i as int),
            decreases i,
        {
            i = i - 1;
            let outcome = self.outcomes[i];
            let mut piece = String::new();
            push_chars(&mut piece, "; room ");
            push_decimal(&mut piece, outcome.room);
            if outcome.deleted {
                push_chars(&mut piece, " was closed");
            } else {
                push_chars(&mut piece, " was not closed");
            }
            push_chars(&mut piece, rest.as_str());
            rest = piece;
        }
        push_chars(&mut text, rest.as_str());
        text
    }
}

} // verus!
