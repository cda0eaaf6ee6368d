//! Families: a template room and the sibling rooms opened from it.

use vstd::prelude::*;
use crate::numbering::{
    is_smallest_free, lemma_smallest_free, smallest_free, AllocationFailed, Numbering,
};
use crate::seqs::{lemma_push_fresh, lemma_remove_at};

verus! {

/// A room that an operator has made the template of a family.
///
/// Two template rooms with the same `id` are the same room, whatever else
/// they hold.
#[derive(Debug)]
pub struct TemplateRoom {
    /// The room.
    pub id: u64,
    /// The naming pattern of the family, as the operator wrote it.
    pub pattern: String,
    /// How many occupants a sibling room can hold; `None` where nothing
    /// limits them.
    pub capacity: Option<u64>,
}

/// What a [`TemplateRoom`] holds.
pub struct TemplateRoomView {
    pub id: u64,
    pub pattern: Seq<char>,
    pub capacity: Option<u64>,
}

impl View for TemplateRoom {
    type V = TemplateRoomView;

    open spec fn view(&self) -> TemplateRoomView {
        TemplateRoomView { id: self.id, pattern: self.pattern@, capacity: self.capacity }
    }
}

impl TemplateRoom {
    /// The template room `id` before anything is known of it: with an
    /// empty pattern and without a limit on the occupants.
    pub fn from_id(id: u64) -> (room: TemplateRoom)
        ensures
            room@ == (TemplateRoomView { id, pattern: Seq::empty(), capacity: None }),
    {
        TemplateRoom { id, pattern: String::new(), capacity: None }
    }

    /// A template room that holds the same.
    pub fn duplicate(&self) -> (copy: TemplateRoom)
        ensures
            copy@ == self@,
    {
        TemplateRoom { id: self.id, pattern: self.pattern.clone(), capacity: self.capacity }
    }
}

/// A room that was opened from a template room.
#[derive(Debug)]
pub struct SiblingRoom {
    /// The room.
    pub id: u64,
    /// The template room of its family.
    pub template_id: u64,
    /// Its number within the family, counted from one.
    pub number: u64,
    /// How many sibling rooms the family had when this value was made.
    pub total: u64,
    /// The naming pattern of the family when this value was made.
    pub pattern: String,
}

/// What a [`SiblingRoom`] holds.
pub struct SiblingRoomView {
    pub id: u64,
    pub template_id: u64,
    pub number: u64,
    pub total: u64,
    pub pattern: Seq<char>,
}

impl View for SiblingRoom {
    type V = SiblingRoomView;

    open spec fn view(&self) -> SiblingRoomView {
        SiblingRoomView {
            id: self.id,
            template_id: self.template_id,
            number: self.number,
            total: self.total,
            pattern: self.pattern@,
        }
    }
}

/// A sibling room as its family keeps it: the room and its number.
#[derive(Debug, Clone, Copy, PartialEq, Eq, Structural)]
pub struct Member {
    pub id: u64,
    pub number: u64,
}

/// What a [`Family`] holds: the template room, and the sibling rooms in the
/// order in which they were opened.
pub struct FamilyView {
    pub template: TemplateRoomView,
    pub members: Seq<Member>,
}

/// The rooms of `members`, in order.
pub open spec fn member_ids(members: Seq<Member>) -> Seq<u64> {
    members.map_values(|m: Member| m.id)
}

/// The numbers of `members`, in order.
pub open spec fn member_numbers(members: Seq<Member>) -> Seq<u64> {
    members.map_values(|m: Member| m.number)
}

impl FamilyView {
    /// The rooms of the siblings, in order.
    pub open spec fn ids(self) -> Seq<u64> {
        member_ids(self.members)
    }

    /// The numbers of the siblings, in order.
    pub open spec fn numbers(self) -> Seq<u64> {
        member_numbers(self.members)
    }

    /// No two siblings are the same room, none is the template room, and
    /// no two bear the same number.
    pub open spec fn wf(self) -> bool {
        &&& self.ids().no_duplicates()
        &&& self.numbers().no_duplicates()
        &&& !self.ids().contains(self.template.id)
    }

    /// Whether `room` is a sibling of the family.
    pub open spec fn has_sibling(self, room: u64) -> bool {
        self.ids().contains(room)
    }

    /// Whether `room` is the template room or a sibling of the family.
    pub open spec fn has_room(self, room: u64) -> bool {
        self.template.id == room || self.has_sibling(room)
    }

    /// Whether `room` with `number` can become a sibling: the room is not
    /// in the family yet, and no sibling bears the number.
    pub open spec fn admits(self, room: u64, number: u64) -> bool {
        !self.has_room(room) && !self.numbers().contains(number)
    }

    /// The family with `room` as its last sibling, under `number`.
    pub open spec fn with_member(self, room: u64, number: u64) -> FamilyView {
        FamilyView { template: self.template, members: self.members.push(Member { id: room, number }) }
    }

    /// The place of `room` among the siblings.
    pub open spec fn index_of(self, room: u64) -> int {
        self.ids().index_of(room)
    }

    /// The family without the sibling `room`.
    pub open spec fn without_member(self, room: u64) -> FamilyView {
        if self.has_sibling(room) {
            FamilyView { template: self.template, members: self.members.remove(self.index_of(room)) }
        } else {
            self
        }
    }

    /// The family with another pattern and capacity.
    pub open spec fn with_template(self, pattern: Seq<char>, capacity: Option<u64>) -> FamilyView {
        FamilyView {
            template: TemplateRoomView { id: self.template.id, pattern, capacity },
            members: self.members,
        }
    }

    /// The sibling at place `i`, as a value of its own: with the family's
    /// pattern, and with the family's size as its total.
    pub open spec fn sibling(self, i: int) -> SiblingRoomView {
        SiblingRoomView {
            id: self.members[i].id,
            template_id: self.template.id,
            number: self.members[i].number,
            total: self.members.len() as u64,
            pattern: self.template.pattern,
        }
    }
}

/// Adding an admitted sibling keeps a family well-formed.
pub proof fn lemma_with_member_wf(family: FamilyView, room: u64, number: u64)
    requires
        family.wf(),
        family.admits(room, number),
    ensures
        family.with_member(room, number).wf(),
        family.with_member(room, number).ids() == family.ids().push(room),
        family.with_member(room, number).numbers() == family.numbers().push(number),
        family.with_member(room, number).has_sibling(room),
{
    let after = family.with_member(room, number);
    assert(after.ids() =~= family.ids().push(room));
    assert(after.numbers() =~= family.numbers().push(number));
    lemma_push_fresh(family.ids(), room);
    lemma_push_fresh(family.numbers(), number);
    assert(after.ids()[family.members.len() as int] == room);
    assert(!after.ids().contains(family.template.id)) by {
        if after.ids().contains(family.template.id) {
            let j = choose|j: int| 0 <= j < after.ids().len() && after.ids()[j] == family.template.id;
        }
    }
}

/// Taking a sibling out keeps a family well-formed, and the room is a
/// sibling no more.
pub proof fn lemma_without_member_wf(family: FamilyView, room: u64)
    requires
        family.wf(),
    ensures
        family.without_member(room).wf(),
        !family.without_member(room).has_sibling(room),
        family.has_sibling(room) ==> {
            &&& 0 <= family.index_of(room) < family.members.len()
            &&& family.members[family.index_of(room)].id == room
            &&& family.without_member(room).ids() == family.ids().remove(family.index_of(room))
            &&& family.without_member(room).numbers() == family.numbers().remove(
                family.index_of(room),
            )
            &&& family.without_member(room).members.len() == family.members.len() - 1
        },
{
    if family.has_sibling(room) {
        let i = family.index_of(room);
        family.ids().index_of_first_ensures(room);
        let after = family.without_member(room);
        assert(after.ids() =~= family.ids().remove(i));
        assert(after.numbers() =~= family.numbers().remove(i));
        lemma_remove_at(family.ids(), i);
        lemma_remove_at(family.numbers(), i);
        assert(!after.ids().contains(family.template.id));
    }
}


/// The siblings of `members` whose rooms are in `existing`, in order.
pub open spec fn kept(members: Seq<Member>, existing: Set<u64>) -> Seq<Member>
    decreases members.len(),
{
    if members.len() == 0 {
        Seq::empty()
    } else if existing.contains(members.last().id) {
        kept(members.drop_last(), existing).push(members.last())
    } else {
        kept(members.drop_last(), existing)
    }
}

/// The rooms of the siblings of `members` that are not in `existing`, in
/// order.
pub open spec fn dropped(members: Seq<Member>, existing: Set<u64>) -> Seq<u64>
    decreases members.len(),
{
    if members.len() == 0 {
        Seq::empty()
    } else if existing.contains(members.last().id) {
        dropped(members.drop_last(), existing)
    } else {
        dropped(members.drop_last(), existing).push(members.last().id)
    }
}

impl FamilyView {
    /// The family with only the siblings whose rooms are in `existing`.
    pub open spec fn restricted(self, existing: Set<u64>) -> FamilyView {
        FamilyView { template: self.template, members: kept(self.members, existing) }
    }
}

/// What is kept is part of what was there: every sibling with its room in
/// `existing` is kept, and no other; every sibling with its room not in
/// `existing` is dropped, and no other room.
pub proof fn lemma_kept(members: Seq<Member>, existing: Set<u64>)
    ensures
        forall|room: u64| #[trigger]
            dropped(members, existing).contains(room) <==> member_ids(members).contains(room)
                && !existing.contains(room),
        forall|room: u64| #[trigger]
            member_ids(kept(members, existing)).contains(room) <==> member_ids(members).contains(
                room,
            ) && existing.contains(room),
        forall|number: u64| #[trigger]
            member_numbers(kept(members, existing)).contains(number) ==> member_numbers(
                members,
            ).contains(number),
        kept(members, existing).len() <= members.len(),
    decreases members.len(),
{
    if members.len() > 0 {
        let head = members.drop_last();
        let last = members.last();
        lemma_kept(head, existing);
        assert(member_ids(members) =~= member_ids(head).push(last.id));
        assert(member_numbers(members) =~= member_numbers(head).push(last.number));
        let k = kept(members, existing);
        let kh = kept(head, existing);
        if existing.contains(last.id) {
            assert(member_ids(k) =~= member_ids(kh).push(last.id));
            assert(member_numbers(k) =~= member_numbers(kh).push(last.number));
        }
        assert forall|room: u64| #[trigger]
            dropped(members, existing).contains(room) <==> member_ids(members).contains(room)
                && !existing.contains(room) by {
            vstd::seq_lib::lemma_seq_contains_after_push(member_ids(head), last.id, room);
            vstd::seq_lib::lemma_seq_contains_after_push(dropped(head, existing), last.id, room);
        }
        assert forall|room: u64| #[trigger]
            member_ids(k).contains(room) <==> member_ids(members).contains(room)
                && existing.contains(room) by {
            vstd::seq_lib::lemma_seq_contains_after_push(member_ids(head), last.id, room);
            vstd::seq_lib::lemma_seq_contains_after_push(member_ids(kh), last.id, room);
        }
        assert forall|number: u64| #[trigger]
            member_numbers(k).contains(number) implies member_numbers(members).contains(number) by {
            vstd::seq_lib::lemma_seq_contains_after_push(member_numbers(head), last.number, number);
            vstd::seq_lib::lemma_seq_contains_after_push(member_numbers(kh), last.number, number);
        }
    }
}

/// Keeping only the siblings whose rooms exist keeps a family
/// well-formed, and drops no room twice.
pub proof fn lemma_restricted_wf(family: FamilyView, existing: Set<u64>)
    requires
        family.wf(),
    ensures
        family.restricted(existing).wf(),
        dropped(family.members, existing).no_duplicates(),
    decreases family.members.len(),
{
    let members = family.members;
    if members.len() > 0 {
        let head = members.drop_last();
        let last = members.last();
        let shorter = FamilyView { template: family.template, members: head };
        assert(shorter.wf() && !shorter.ids().contains(last.id) && !shorter.numbers().contains(
            last.number,
        )) by {
            assert forall|i: int, j: int|
                0 <= i < head.len() && 0 <= j < head.len() && i != j implies shorter.ids()[i]
                != shorter.ids()[j] && shorter.numbers()[i] != shorter.numbers()[j] by {
                assert(family.ids()[i] == shorter.ids()[i]);
                assert(family.ids()[j] == shorter.ids()[j]);
                assert(family.numbers()[i] == shorter.numbers()[i]);
                assert(family.numbers()[j] == shorter.numbers()[j]);
            }
            if shorter.ids().contains(last.id) {
                let i = choose|i: int| 0 <= i < shorter.ids().len() && shorter.ids()[i] == last.id;
                assert(family.ids()[i] == last.id);
                assert(family.ids()[head.len() as int] == last.id);
            }
            if shorter.numbers().contains(last.number) {
                let i = choose|i: int|
                    0 <= i < shorter.numbers().len() && shorter.numbers()[i] == last.number;
                assert(family.numbers()[i] == last.number);
                assert(family.numbers()[head.len() as int] == last.number);
            }
            if shorter.ids().contains(family.template.id) {
                let i = choose|i: int|
                    0 <= i < shorter.ids().len() && shorter.ids()[i] == family.template.id;
                assert(family.ids()[i] == family.template.id);
            }
        }
        lemma_restricted_wf(shorter, existing);
        lemma_kept(head, existing);
        lemma_kept(members, existing);
        let kh = shorter.restricted(existing);
        let k = family.restricted(existing);
        if existing.contains(last.id) {
            assert(k.ids() =~= kh.ids().push(last.id));
            assert(k.numbers() =~= kh.numbers().push(last.number));
            lemma_push_fresh(kh.ids(), last.id);
            lemma_push_fresh(kh.numbers(), last.number);
        } else {
            lemma_push_fresh(dropped(head, existing), last.id);
        }
    }
}

/// Whether `room` is among `rooms`.
pub fn contains(rooms: &Vec<u64>, room: u64) -> (found: bool)
    ensures
        found == rooms@.to_set().contains(room),
{
    let mut i: usize = 0;
    while i < rooms.len()
        invariant
            i <= rooms.len(),
            forall|j: int| 0 <= j < i ==> rooms@[j] != room,
        decreases rooms.len() - i,
    {
        if rooms[i] == room {
            return true;
        }
        i = i + 1;
    }
    false
}

/// A template room and its sibling rooms.
#[derive(Debug)]
pub struct Family {
    template: TemplateRoom,
    members: Vec<Member>,
}

impl View for Family {
    type V = FamilyView;

    closed spec fn view(&self) -> FamilyView {
        FamilyView { template: self.template@, members: self.members@ }
    }
}

impl Family {
    /// Whether what the family holds is well-formed.
    pub open spec fn wf(&self) -> bool {
        self@.wf()
    }

    /// A family without siblings.
    pub fn new(template: TemplateRoom) -> (family: Family)
        ensures
            family@ == (FamilyView { template: template@, members: Seq::empty() }),
            family.wf(),
    {
        let family = Family { template, members: Vec::new() };
        family
    }

    /// A family that holds the same.
    pub fn duplicate(&self) -> (copy: Family)
        ensures
            copy@ == self@,
    {
        let mut members: Vec<Member> = Vec::new();
        let mut i: usize = 0;
        while i < self.members.len()
            invariant
                i <= self.members.len(),
                members@ == self.members@.take(i as int),
            decreases self.members.len() - i,
        {
            members.push(self.members[i]);
            i = i + 1;
        }
        assert(self.members@.take(self.members.len() as int) == self.members@);
        Family { template: self.template.duplicate(), members }
    }

    /// The template room.
    pub fn template(&self) -> (template: &TemplateRoom)
        ensures
            template@ == self@.template,
    {
        &self.template
    }

    /// The room of the template.
    pub fn id(&self) -> (id: u64)
        ensures
            id == self@.template.id,
    {
        self.template.id
    }

    /// How many siblings the family has.
    pub fn len(&self) -> (n: usize)
        ensures
            n == self@.members.len(),
    {
        self.members.len()
    }

    /// The sibling at place `i`.
    pub fn member(&self, i: usize) -> (member: Member)
        requires
            i < self@.members.len(),
        ensures
            member == self@.members[i as int],
    {
        self.members[i]
    }

    /// The place of `room` among the siblings, if it is one.
    pub fn position_of(&self, room: u64) -> (at: Option<usize>)
        ensures
            at is Some <==> self@.has_sibling(room),
            at matches Some(i) ==> i < self@.members.len() && self@.members[i as int].id == room,
            self.wf() ==> (at matches Some(i) ==> i == self@.index_of(room)),
    {
        let mut i: usize = 0;
        while i < self.members.len()
            invariant
                i <= self.members.len(),
                forall|j: int| 0 <= j < i ==> self@.ids()[j] != room,
            decreases self.members.len() - i,
        {
            if self.members[i].id == room {
                assert(self@.ids()[i as int] == room);
                return Some(i);
            }
            i = i + 1;
        }
        None
    }

    /// Whether a sibling bears `number`.
    pub fn holds_number(&self, number: u64) -> (b: bool)
        ensures
            b == self@.numbers().contains(number),
    {
        let mut i: usize = 0;
        while i < self.members.len()
            invariant
                i <= self.members.len(),
                forall|j: int| 0 <= j < i ==> self@.numbers()[j] != number,
            decreases self.members.len() - i,
        {
            if self.members[i].number == number {
                assert(self@.numbers()[i as int] == number);
                return true;
            }
            i = i + 1;
        }
        false
    }

    /// The rooms of the siblings, in order.
    pub fn ids(&self) -> (ids: Vec<u64>)
        ensures
            ids@ == self@.ids(),
    {
        let mut ids: Vec<u64> = Vec::new();
        let mut i: usize = 0;
        while i < self.members.len()
            invariant
                i <= self.members.len(),
                ids@ == self@.ids().take(i as int),
            decreases self.members.len() - i,
        {
            ids.push(self.members[i].id);
            i = i + 1;
        }
        ids
    }

    /// The numbers that the siblings bear, in order.
    pub fn numbers(&self) -> (numbers: Vec<u64>)
        ensures
            numbers@ == self@.numbers(),
    {
        let mut numbers: Vec<u64> = Vec::new();
        let mut i: usize = 0;
        while i < self.members.len()
            invariant
                i <= self.members.len(),
                numbers@ == self@.numbers().take(i as int),
            decreases self.members.len() - i,
        {
            numbers.push(self.members[i].number);
            i = i + 1;
        }
        numbers
    }

    /// The number that the next sibling gets: the smallest number, counted
    /// from one, that no sibling bears. Fails only where every number is
    /// borne.
    pub fn next_number(&self) -> (r: Result<u64, AllocationFailed>)
        ensures
            match r {
                Ok(n) => is_smallest_free(self@.numbers().to_set(), n as int)
                    && !self@.numbers().contains(n),
                Err(e) => e == AllocationFailed::Exhausted && smallest_free(
                    self@.numbers().to_set(),
                ) > u64::MAX,
            },
    {
        let numbers = self.numbers();
        proof {
            lemma_smallest_free(numbers@.to_set());
        }
        match Numbering::initialize(&numbers) {
            Ok(numbering) => Ok(numbering.next_number()),
            Err(e) => Err(e),
        }
    }

    /// The sibling at place `i`, as a value of its own.
    pub fn sibling(&self, i: usize) -> (sibling: SiblingRoom)
        requires
            i < self@.members.len(),
        ensures
            sibling@ == self@.sibling(i as int),
    {
        SiblingRoom {
            id: self.members[i].id,
            template_id: self.template.id,
            number: self.members[i].number,
            total: self.members.len() as u64,
            pattern: self.template.pattern.clone(),
        }
    }

    /// All siblings, in order, each as a value of its own.
    pub fn siblings(&self) -> (siblings: Vec<SiblingRoom>)
        ensures
            siblings.len() == self@.members.len(),
            forall|i: int| 0 <= i < siblings.len() ==> (#[trigger] siblings[i])@ == self@.sibling(i),
    {
        let mut siblings: Vec<SiblingRoom> = Vec::new();
        let mut i: usize = 0;
        while i < self.members.len()
            invariant
                i <= self.members.len(),
                siblings.len() == i,
                forall|j: int| 0 <= j < i ==> (#[trigger] siblings[j])@ == self@.sibling(j),
            decreases self.members.len() - i,
        {
            siblings.push(self.sibling(i));
            i = i + 1;
        }
        siblings
    }

    /// Makes `room` the last sibling, under `number`. Where the family does
    /// not admit them, nothing changes and the answer is `false`.
    pub fn insert(&mut self, room: u64, number: u64) -> (inserted: bool)
        requires
            old(self).wf(),
        ensures
            final(self).wf(),
            inserted == old(self)@.admits(room, number),
            final(self)@ == if inserted {
                old(self)@.with_member(room, number)
            } else {
                old(self)@
            },
    {
        if room == self.template.id || self.position_of(room).is_some() || self.holds_number(
            number,
        ) {
            return false;
        }
        proof {
            lemma_with_member_wf(self@, room, number);
        }
        self.members.push(Member { id: room, number });
        true
    }

    /// Takes the sibling `room` out and hands it back; `None`, and nothing
    /// changes, where `room` is no sibling.
    pub fn remove(&mut self, room: u64) -> (removed: Option<Member>)
        requires
            old(self).wf(),
        ensures
            final(self).wf(),
            final(self)@ == old(self)@.without_member(room),
            removed is Some <==> old(self)@.has_sibling(room),
            removed matches Some(member) ==> member == old(self)@.members[old(self)@.index_of(room)]
                && member.id == room,
    {
        proof {
            lemma_without_member_wf(self@, room);
        }
        match self.position_of(room) {
            None => None,
            Some(at) => Some(self.members.remove(at)),
        }
    }

    /// Keeps only the siblings whose rooms are among `existing`, and hands
    /// back the rooms of the others.
    pub fn retain(&mut self, existing: &Vec<u64>) -> (gone: Vec<u64>)
        requires
            old(self).wf(),
        ensures
            final(self).wf(),
            final(self)@ == old(self)@.restricted(existing@.to_set()),
            gone@ == dropped(old(self)@.members, existing@.to_set()),
            gone@.no_duplicates(),
    {
        let ghost before = self@;
        let ghost alive = existing@.to_set();
        let mut members: Vec<Member> = Vec::new();
        let mut gone: Vec<u64> = Vec::new();
        let mut i: usize = 0;
        while i < self.members.len()
            invariant
                i <= self.members.len(),
                self@ == before,
                alive == existing@.to_set(),
                members@ == kept(before.members.take(i as int), alive),
                gone@ == dropped(before.members.take(i as int), alive),
            decreases self.members.len() - i,
        {
            let member = self.members[i];
            proof {
                assert(before.members.take(i + 1).drop_last() == before.members.take(i as int));
            }
            if contains(existing, member.id) {
                members.push(member);
            } else {
                gone.push(member.id);
            }
            i = i + 1;
        }
        proof {
            assert(before.members.take(self.members.len() as int) == before.members);
            lemma_restricted_wf(before, alive);
        }
        self.members = members;
        gone
    }

    /// Gives the family another pattern and capacity.
    pub fn set_template(&mut self, pattern: String, capacity: Option<u64>)
        ensures
            final(self)@ == old(self)@.with_template(pattern@, capacity),
            old(self).wf() ==> final(self).wf(),
    {
        self.template.pattern = pattern;
        self.template.capacity = capacity;
    }
}

} // verus!
