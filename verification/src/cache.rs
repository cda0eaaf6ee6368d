//! The family state cache: the families of one group, as the process
//! remembers them.
//!
//! The cache mirrors what is persisted; it is never the source of truth. It
//! is built when the process joins a group, changed with every room that is
//! opened or closed, and dropped when the process leaves the group. Whoever
//! shares it between tasks guards it with a lock of their own.

use vstd::prelude::*;
use rustc_hash::FxHashMap;
use crate::family::{
    contains, dropped, lemma_kept, lemma_restricted_wf, lemma_with_member_wf,
    lemma_without_member_wf, Family, FamilyView, Member, TemplateRoom, TemplateRoomView,
};
use crate::seqs::{lemma_push_fresh, lemma_remove_at};
use crate::template::{compiled, parse_template, CompileError};
use crate::fx::{fx_get, fx_insert, fx_keys, fx_remove};

verus! {

/// Whether `room` is a sibling of the family that `families` holds under
/// `template`.
pub open spec fn sibling_owner(families: Map<u64, FamilyView>, room: u64, template: u64) -> bool {
    families.contains_key(template) && families[template].has_sibling(room)
}

/// Whether `families` can be the families of one group: every family is
/// well-formed and stands under the id of its template room, no room is a
/// sibling in two families, and no sibling is a template room.
pub open spec fn state_wf(families: Map<u64, FamilyView>) -> bool {
    &&& families.dom().finite()
    &&& forall|t: u64| #[trigger]
        families.contains_key(t) ==> families[t].template.id == t && families[t].wf()
    &&& forall|room: u64, t1: u64, t2: u64|
        #![trigger sibling_owner(families, room, t1), sibling_owner(families, room, t2)]
        sibling_owner(families, room, t1) && sibling_owner(families, room, t2) ==> t1 == t2
    &&& forall|room: u64, t: u64| #[trigger]
        sibling_owner(families, room, t) ==> !families.contains_key(room)
}

/// Whether `room` is a sibling in some family of `families`.
pub open spec fn is_sibling(families: Map<u64, FamilyView>, room: u64) -> bool {
    exists|t: u64| sibling_owner(families, room, t)
}

/// The template room of the family in which `room` is a sibling.
pub open spec fn owner_of(families: Map<u64, FamilyView>, room: u64) -> u64 {
    choose|t: u64| sibling_owner(families, room, t)
}

/// The template room of the family that `room` belongs to, as its template
/// room or as a sibling; `None` where no family knows the room.
pub open spec fn family_of(families: Map<u64, FamilyView>, room: u64) -> Option<u64> {
    if families.contains_key(room) {
        Some(room)
    } else if is_sibling(families, room) {
        Some(owner_of(families, room))
    } else {
        None
    }
}

/// Whether `room` can become a sibling under `template` with `number`: the
/// family exists, no family knows the room, and no sibling of the family
/// bears the number.
pub open spec fn admits_sibling(
    families: Map<u64, FamilyView>,
    template: u64,
    room: u64,
    number: u64,
) -> bool {
    &&& families.contains_key(template)
    &&& family_of(families, room) is None
    &&& !families[template].numbers().contains(number)
}

/// `families` with `room` as the last sibling under `template`.
pub open spec fn with_sibling(
    families: Map<u64, FamilyView>,
    template: u64,
    room: u64,
    number: u64,
) -> Map<u64, FamilyView> {
    families.insert(template, families[template].with_member(room, number))
}

/// `families` without the sibling `room`.
pub open spec fn without_sibling(families: Map<u64, FamilyView>, room: u64) -> Map<u64, FamilyView> {
    if is_sibling(families, room) {
        let t = owner_of(families, room);
        families.insert(t, families[t].without_member(room))
    } else {
        families
    }
}

/// `families` with the template room `id` set to `pattern` and `capacity`:
/// its family keeps its siblings, or begins without any.
pub open spec fn with_template(
    families: Map<u64, FamilyView>,
    id: u64,
    pattern: Seq<char>,
    capacity: Option<u64>,
) -> Map<u64, FamilyView> {
    if families.contains_key(id) {
        families.insert(id, families[id].with_template(pattern, capacity))
    } else {
        families.insert(
            id,
            FamilyView {
                template: TemplateRoomView { id, pattern, capacity },
                members: Seq::empty(),
            },
        )
    }
}

/// Which rooms are siblings, and of which family, once an admitted
/// sibling has been added: those that were, and the new one.
pub proof fn lemma_with_sibling(families: Map<u64, FamilyView>, template: u64, room: u64, number: u64)
    requires
        state_wf(families),
        admits_sibling(families, template, room, number),
    ensures
        state_wf(with_sibling(families, template, room, number)),
        with_sibling(families, template, room, number).dom() == families.dom(),
        forall|r: u64, t: u64| #[trigger]
            sibling_owner(with_sibling(families, template, room, number), r, t) <==> (sibling_owner(
                families,
                r,
                t,
            ) || (r == room && t == template)),
{
    let after = with_sibling(families, template, room, number);
    let placed = families[template].with_member(room, number);
    assert(!families[template].has_room(room)) by {
        if families[template].has_sibling(room) {
            assert(sibling_owner(families, room, template));
        }
    }
    lemma_with_member_wf(families[template], room, number);
    assert forall|r: u64, t: u64| #[trigger]
        sibling_owner(after, r, t) <==> (sibling_owner(families, r, t) || (r == room && t
            == template)) by {
        if t == template && r != room {
            vstd::seq_lib::lemma_seq_contains_after_push(families[template].ids(), room, r);
        }
    }
    assert forall|r: u64, t1: u64, t2: u64|
        #![trigger sibling_owner(after, r, t1), sibling_owner(after, r, t2)]
        sibling_owner(after, r, t1) && sibling_owner(after, r, t2) implies t1 == t2 by {}
    assert forall|r: u64, t: u64| #[trigger] sibling_owner(after, r, t) implies !after.contains_key(
        r,
    ) by {}
}

/// Which rooms are siblings, and of which family, once a sibling has been
/// taken out: those that were, but for that one.
pub proof fn lemma_without_sibling(families: Map<u64, FamilyView>, room: u64)
    requires
        state_wf(families),
    ensures
        state_wf(without_sibling(families, room)),
        without_sibling(families, room).dom() == families.dom(),
        forall|r: u64, t: u64| #[trigger]
            sibling_owner(without_sibling(families, room), r, t) <==> (sibling_owner(
                families,
                r,
                t,
            ) && r != room),
        is_sibling(families, room) ==> sibling_owner(families, room, owner_of(families, room)),
{
    let after = without_sibling(families, room);
    if is_sibling(families, room) {
        let template = owner_of(families, room);
        let at = families[template].index_of(room);
        lemma_without_member_wf(families[template], room);
        lemma_remove_at(families[template].ids(), at);
        let placed = families[template].without_member(room);
        assert forall|r: u64, t: u64| #[trigger]
            sibling_owner(after, r, t) <==> (sibling_owner(families, r, t) && r != room) by {
            if t == template {
                assert(placed.ids().to_set().contains(r) <==> families[template].ids().to_set().remove(
                    room,
                ).contains(r));
            }
        }
        assert forall|r: u64, t1: u64, t2: u64|
            #![trigger sibling_owner(after, r, t1), sibling_owner(after, r, t2)]
            sibling_owner(after, r, t1) && sibling_owner(after, r, t2) implies t1 == t2 by {}
        assert forall|r: u64, t: u64| #[trigger]
            sibling_owner(after, r, t) implies !after.contains_key(r) by {}
    } else {
        assert forall|r: u64, t: u64| #[trigger]
            sibling_owner(after, r, t) <==> (sibling_owner(families, r, t) && r != room) by {}
    }
}

/// Which rooms are siblings, and of which family, once a template room has
/// been set: the same as before.
pub proof fn lemma_with_template(
    families: Map<u64, FamilyView>,
    id: u64,
    pattern: Seq<char>,
    capacity: Option<u64>,
)
    requires
        state_wf(families),
        !is_sibling(families, id),
    ensures
        state_wf(with_template(families, id, pattern, capacity)),
        with_template(families, id, pattern, capacity).dom() == families.dom().insert(id),
        forall|r: u64, t: u64| #[trigger]
            sibling_owner(with_template(families, id, pattern, capacity), r, t) <==> sibling_owner(
                families,
                r,
                t,
            ),
{
    let after = with_template(families, id, pattern, capacity);
    let placed = after[id];
    assert forall|r: u64, t: u64| #[trigger]
        sibling_owner(after, r, t) <==> sibling_owner(families, r, t) by {}
    assert forall|r: u64, t1: u64, t2: u64|
        #![trigger sibling_owner(after, r, t1), sibling_owner(after, r, t2)]
        sibling_owner(after, r, t1) && sibling_owner(after, r, t2) implies t1 == t2 by {}
    assert forall|r: u64, t: u64| #[trigger] sibling_owner(after, r, t) implies !after.contains_key(
        r,
    ) by {}
}

/// Which rooms are siblings, and of which family, once a family has been
/// taken out: those that were, but for the siblings of that family.
pub proof fn lemma_without_template(families: Map<u64, FamilyView>, id: u64)
    requires
        state_wf(families),
    ensures
        state_wf(families.remove(id)),
        forall|r: u64, t: u64| #[trigger]
            sibling_owner(families.remove(id), r, t) <==> (sibling_owner(families, r, t) && t
                != id),
{
    let after = families.remove(id);
    assert forall|r: u64, t1: u64, t2: u64|
        #![trigger sibling_owner(after, r, t1), sibling_owner(after, r, t2)]
        sibling_owner(after, r, t1) && sibling_owner(after, r, t2) implies t1 == t2 by {
        assert(sibling_owner(families, r, t1));
        assert(sibling_owner(families, r, t2));
    }
    assert forall|r: u64, t: u64| #[trigger] sibling_owner(after, r, t) implies !after.contains_key(
        r,
    ) by {
        assert(sibling_owner(families, r, t));
    }
}

/// `families` with the family of `template` cut down to the siblings
/// whose rooms are in `existing`.
pub open spec fn with_restricted(
    families: Map<u64, FamilyView>,
    template: u64,
    existing: Set<u64>,
) -> Map<u64, FamilyView> {
    if families.contains_key(template) {
        families.insert(template, families[template].restricted(existing))
    } else {
        families
    }
}

/// Which rooms are siblings, and of which family, once one family has been
/// cut down to the siblings whose rooms exist: those that were, but for
/// the siblings of that family whose rooms do not exist.
pub proof fn lemma_with_restricted(families: Map<u64, FamilyView>, template: u64, existing: Set<u64>)
    requires
        state_wf(families),
    ensures
        state_wf(with_restricted(families, template, existing)),
        with_restricted(families, template, existing).dom() == families.dom(),
        forall|r: u64, t: u64| #[trigger]
            sibling_owner(with_restricted(families, template, existing), r, t) <==> (sibling_owner(
                families,
                r,
                t,
            ) && (t == template ==> existing.contains(r))),
{
    let after = with_restricted(families, template, existing);
    if families.contains_key(template) {
        lemma_restricted_wf(families[template], existing);
        lemma_kept(families[template].members, existing);
    }
    assert forall|r: u64, t: u64| #[trigger]
        sibling_owner(after, r, t) <==> (sibling_owner(families, r, t) && (t == template
            ==> existing.contains(r))) by {}
    assert forall|r: u64, t1: u64, t2: u64|
        #![trigger sibling_owner(after, r, t1), sibling_owner(after, r, t2)]
        sibling_owner(after, r, t1) && sibling_owner(after, r, t2) implies t1 == t2 by {}
    assert forall|r: u64, t: u64| #[trigger] sibling_owner(after, r, t) implies !after.contains_key(
        r,
    ) by {}
}

/// What is left of `families` when only the rooms in `existing` exist: the
/// families whose template rooms exist, each with the siblings whose rooms
/// exist.
pub open spec fn surviving(families: Map<u64, FamilyView>, existing: Set<u64>) -> Map<
    u64,
    FamilyView,
> {
    Map::new(
        |t: u64| families.contains_key(t) && existing.contains(t),
        |t: u64| families[t].restricted(existing),
    )
}

/// Whether `room` is a sibling in `families` that is no more when only the
/// rooms in `existing` exist: because it does not exist itself, or because
/// its template room does not.
pub open spec fn dead_sibling(families: Map<u64, FamilyView>, existing: Set<u64>, room: u64) -> bool {
    exists|t: u64| #[trigger]
        sibling_owner(families, room, t) && (!existing.contains(room) || !existing.contains(t))
}

/// `families` when the families of the template rooms in `done` have been
/// checked against `existing`, and the others not yet.
spec fn purged_of(families: Map<u64, FamilyView>, existing: Set<u64>, done: Set<u64>) -> Map<
    u64,
    FamilyView,
> {
    Map::new(
        |t: u64| families.contains_key(t) && (done.contains(t) ==> existing.contains(t)),
        |t: u64|
            if done.contains(t) {
                families[t].restricted(existing)
            } else {
                families[t]
            },
    )
}

/// Whether `room` is a dead sibling of a family whose template room is in
/// `done`.
spec fn dead_sibling_of(
    families: Map<u64, FamilyView>,
    existing: Set<u64>,
    done: Set<u64>,
    room: u64,
) -> bool {
    exists|t: u64| #[trigger]
        sibling_owner(families, room, t) && done.contains(t) && (!existing.contains(room)
            || !existing.contains(t))
}

/// The rooms that a group has lost: they are on record and exist no more.
#[derive(Debug)]
pub struct DeadRooms {
    /// The template rooms that exist no more.
    pub templates: Vec<u64>,
    /// The sibling rooms that exist no more, and the sibling rooms of the
    /// template rooms that exist no more.
    pub siblings: Vec<u64>,
}

/// The capacity on record for the template room `id`; `None` where
/// nothing limits the occupants and where the room is not on record.
pub open spec fn capacity_of(families: Map<u64, FamilyView>, id: u64) -> Option<u64> {
    if families.contains_key(id) {
        families[id].template.capacity
    } else {
        None
    }
}

/// The families of one group.
pub struct FamilyState {
    /// Each family, under the id of its template room.
    families: FxHashMap<u64, Family>,
    /// For each sibling room, the template room of its family.
    owners: FxHashMap<u64, u64>,
}

impl View for FamilyState {
    type V = Map<u64, FamilyView>;

    closed spec fn view(&self) -> Map<u64, FamilyView> {
        Map::new(|t: u64| self.families@.contains_key(t), |t: u64| self.families@[t]@)
    }
}

impl FamilyState {
    /// The families are well-formed, and the index of the siblings agrees
    /// with them.
    pub closed spec fn wf(&self) -> bool {
        &&& state_wf(self@)
        &&& forall|room: u64, t: u64|
            (self.owners@.contains_key(room) && self.owners@[room] == t) <==> #[trigger] sibling_owner(
                self@,
                room,
                t,
            )
    }

    /// What a well-formed cache holds is well-formed.
    pub proof fn lemma_wf(&self)
        requires
            self.wf(),
        ensures
            state_wf(self@),
    {
    }

    /// A cache that holds no family.
    pub fn new() -> (state: FamilyState)
        ensures
            state.wf(),
            state@ == Map::<u64, FamilyView>::empty(),
    {
        let state = FamilyState { families: FxHashMap::default(), owners: FxHashMap::default() };
        state
    }

    /// The family of the template room `template`, if the cache holds it.
    pub fn get_family(&self, template: u64) -> (family: Option<&Family>)
        ensures
            family is Some <==> self@.contains_key(template),
            family matches Some(f) ==> f@ == self@[template],
    {
        fx_get(&self.families, template)
    }

    /// The family that `room` belongs to, as its template room or as a
    /// sibling, if the cache holds it.
    pub fn family_of(&self, room: u64) -> (family: Option<&Family>)
        requires
            self.wf(),
        ensures
            match family_of(self@, room) {
                Some(t) => family matches Some(f) && f@ == self@[t] && self@.contains_key(t),
                None => family is None,
            },
    {
        match fx_get(&self.families, room) {
            Some(family) => Some(family),
            None => match fx_get(&self.owners, room) {
                None => {
                    None
                },
                Some(owner) => {
                    assert(sibling_owner(self@, room, *owner));
                    fx_get(&self.families, *owner)
                },
            },
        }
    }

    /// Sets the pattern and capacity of a template room. A room that the
    /// cache did not know as a template room becomes one, with no siblings;
    /// a room that is a sibling cannot become one: then nothing changes and
    /// the answer is `false`.
    pub fn upsert_template(&mut self, template: TemplateRoom) -> (done: bool)
        requires
            old(self).wf(),
        ensures
            final(self).wf(),
            done == !is_sibling(old(self)@, template.id),
            final(self)@ == if done {
                with_template(old(self)@, template.id, template.pattern@, template.capacity)
            } else {
                old(self)@
            },
    {
        let id = template.id;
        match fx_get(&self.owners, id) {
            Some(owner) => {
                assert(sibling_owner(self@, id, *owner));
                return false;
            },
            None => {},
        }
        let ghost before = self@;
        let family = match fx_remove(&mut self.families, id) {
            Some(mut family) => {
                family.set_template(template.pattern, template.capacity);
                family
            },
            None => {
                Family::new(template)
            },
        };
        let ghost placed = family@;
        fx_insert(&mut self.families, id, family);
        proof {
            lemma_with_template(before, id, template.pattern@, template.capacity);
            assert(self@ =~= with_template(before, id, template.pattern@, template.capacity));
        }
        true
    }

    /// Gives the template room `id` the pattern `pattern`, once the pattern
    /// has been found to compile. A pattern that does not compile changes
    /// nothing and comes back as an error. Otherwise the family keeps its
    /// capacity and its siblings, or begins without either; the answer is
    /// `false`, and nothing changes, where `id` is a sibling.
    pub fn set_template(&mut self, id: u64, pattern: String) -> (r: Result<bool, CompileError>)
        requires
            old(self).wf(),
        ensures
            final(self).wf(),
            match compiled(pattern@) {
                Err(e) => r == Err::<bool, CompileError>(e) && final(self)@ == old(self)@,
                Ok(_) => r == Ok::<bool, CompileError>(!is_sibling(old(self)@, id)) && final(self)@
                    == if is_sibling(old(self)@, id) {
                    old(self)@
                } else {
                    with_template(old(self)@, id, pattern@, capacity_of(old(self)@, id))
                },
            },
    {
        match parse_template(pattern.as_str()) {
            Err(e) => Err(e),
            Ok(_) => {
                let capacity = match self.get_family(id) {
                    Some(family) => family.template().capacity,
                    None => None,
                };
                Ok(self.upsert_template(TemplateRoom { id, pattern, capacity }))
            },
        }
    }

    /// Limits the siblings of the template room `id` to `capacity`
    /// occupants. The answer is `false`, and nothing changes, where the
    /// cache holds no such family.
    pub fn set_capacity(&mut self, id: u64, capacity: u64) -> (done: bool)
        requires
            old(self).wf(),
        ensures
            final(self).wf(),
            done == old(self)@.contains_key(id),
            final(self)@ == if done {
                with_template(old(self)@, id, old(self)@[id].template.pattern, Some(capacity))
            } else {
                old(self)@
            },
    {
        self.change_capacity(id, Some(capacity))
    }

    /// Lifts the limit on the occupants of the siblings of the template
    /// room `id`. The answer is `false`, and nothing changes, where the
    /// cache holds no such family.
    pub fn clear_capacity(&mut self, id: u64) -> (done: bool)
        requires
            old(self).wf(),
        ensures
            final(self).wf(),
            done == old(self)@.contains_key(id),
            final(self)@ == if done {
                with_template(old(self)@, id, old(self)@[id].template.pattern, None)
            } else {
                old(self)@
            },
    {
        self.change_capacity(id, None)
    }

    fn change_capacity(&mut self, id: u64, capacity: Option<u64>) -> (done: bool)
        requires
            old(self).wf(),
        ensures
            final(self).wf(),
            done == old(self)@.contains_key(id),
            final(self)@ == if done {
                with_template(old(self)@, id, old(self)@[id].template.pattern, capacity)
            } else {
                old(self)@
            },
    {
        proof {
            self.lemma_wf();
        }
        let pattern = match self.get_family(id) {
            Some(family) => family.template().pattern.clone(),
            None => {
                return false;
            },
        };
        assert(!is_sibling(self@, id)) by {
            if is_sibling(self@, id) {
                let t = choose|t: u64| sibling_owner(self@, id, t);
            }
        }
        self.upsert_template(TemplateRoom { id, pattern, capacity })
    }

    /// Makes `room` the last sibling of the family of `template`, under
    /// `number`. Where the cache does not admit it, nothing changes and the
    /// answer is `false`.
    pub fn insert_sibling(&mut self, template: u64, room: u64, number: u64) -> (inserted: bool)
        requires
            old(self).wf(),
        ensures
            final(self).wf(),
            inserted == admits_sibling(old(self)@, template, room, number),
            final(self)@ == if inserted {
                with_sibling(old(self)@, template, room, number)
            } else {
                old(self)@
            },
    {
        let ghost before = self@;
        if fx_get(&self.families, room).is_some() {
            return false;
        }
        match fx_get(&self.owners, room) {
            Some(owner) => {
                assert(sibling_owner(before, room, *owner));
                return false;
            },
            None => {},
        }
        let mut family = match fx_remove(&mut self.families, template) {
            None => {
                assert(self@ =~= before);
                return false;
            },
            Some(family) => family,
        };
        assert(!family@.has_room(room)) by {
            if family@.has_sibling(room) {
                assert(sibling_owner(before, room, template));
            }
        }
        let inserted = family.insert(room, number);
        let ghost placed = family@;
        fx_insert(&mut self.families, template, family);
        assert(self@ =~= before.insert(template, placed));
        if !inserted {
            assert(self@ =~= before);
            return false;
        }
        fx_insert(&mut self.owners, room, template);
        proof {
            lemma_with_sibling(before, template, room, number);
        }
        true
    }

    /// Takes the sibling `room` out of its family and hands back the
    /// template room of that family and what the family kept of the
    /// sibling; `None`, and nothing changes, where `room` is no sibling.
    pub fn remove_sibling(&mut self, room: u64) -> (removed: Option<(u64, Member)>)
        requires
            old(self).wf(),
        ensures
            final(self).wf(),
            final(self)@ == without_sibling(old(self)@, room),
            removed is Some <==> is_sibling(old(self)@, room),
            removed matches Some((template, member)) ==> {
                &&& template == owner_of(old(self)@, room)
                &&& member.id == room
                &&& member == old(self)@[template].members[old(self)@[template].index_of(room)]
            },
    {
        let ghost before = self@;
        let template = match fx_remove(&mut self.owners, room) {
            None => {
                assert(!is_sibling(before, room));
                return None;
            },
            Some(template) => template,
        };
        assert(sibling_owner(before, room, template));
        let mut family = match fx_remove(&mut self.families, template) {
            None => {
                return None;
            },
            Some(family) => family,
        };
        let removed = family.remove(room);
        let ghost placed = family@;
        fx_insert(&mut self.families, template, family);
        proof {
            lemma_without_sibling(before, room);
            assert(self@ =~= before.insert(template, placed));
        }
        match removed {
            Some(member) => Some((template, member)),
            None => None,
        }
    }

    /// Takes the family of the template room `template` out, siblings and
    /// all, and hands it back; `None`, and nothing changes, where the cache
    /// holds no such family.
    pub fn remove_template(&mut self, template: u64) -> (removed: Option<Family>)
        requires
            old(self).wf(),
        ensures
            final(self).wf(),
            final(self)@ == old(self)@.remove(template),
            removed is Some <==> old(self)@.contains_key(template),
            removed matches Some(family) ==> family@ == old(self)@[template],
    {
        let ghost before = self@;
        let family = match fx_remove(&mut self.families, template) {
            None => {
                assert(self@ =~= before.remove(template));
                assert(before.remove(template) =~= before);
                return None;
            },
            Some(family) => family,
        };
        let ghost after = self@;
        assert(after =~= before.remove(template));
        let ghost gone = family@;
        let ghost owners_before = self.owners@;
        let mut i: usize = 0;
        while i < family.len()
            invariant
                i <= gone.members.len(),
                family@ == gone,
                self@ == after,
                self.owners@ == owners_before.remove_keys(gone.ids().take(i as int).to_set()),
            decreases gone.members.len() - i,
        {
            let room = family.member(i).id;
            fx_remove(&mut self.owners, room);
            proof {
                assert(gone.ids().take(i + 1) == gone.ids().take(i as int).push(room));
                crate::seqs::lemma_push_set(gone.ids().take(i as int), room);
            }
            i = i + 1;
        }
        proof {
            assert(gone.ids().take(gone.members.len() as int) == gone.ids());
            lemma_without_template(before, template);
            assert forall|room: u64, t: u64|
                (self.owners@.contains_key(room) && self.owners@[room] == t) <==> #[trigger] sibling_owner(
                    after,
                    room,
                    t,
                ) by {
                if sibling_owner(before, room, t) && gone.ids().contains(room) {
                    assert(sibling_owner(before, room, template));
                }
            }
        }
        Some(family)
    }

    /// Cuts the family of `template` down to the siblings whose rooms are
    /// among `existing`, and hands back the rooms of the others. Where the
    /// cache holds no such family, nothing changes.
    pub fn retain_siblings(&mut self, template: u64, existing: &Vec<u64>) -> (gone: Vec<u64>)
        requires
            old(self).wf(),
        ensures
            final(self).wf(),
            final(self)@ == with_restricted(old(self)@, template, existing@.to_set()),
            gone@ == if old(self)@.contains_key(template) {
                dropped(old(self)@[template].members, existing@.to_set())
            } else {
                Seq::<u64>::empty()
            },
            gone@.no_duplicates(),
    {
        let ghost before = self@;
        let ghost alive = existing@.to_set();
        let mut family = match fx_remove(&mut self.families, template) {
            None => {
                assert(self@ =~= before);
                return Vec::new();
            },
            Some(family) => family,
        };
        let gone = family.retain(existing);
        fx_insert(&mut self.families, template, family);
        let ghost after = self@;
        let ghost owners_before = self.owners@;
        assert(after =~= with_restricted(before, template, alive));
        let mut i: usize = 0;
        while i < gone.len()
            invariant
                i <= gone.len(),
                self@ == after,
                self.owners@ == owners_before.remove_keys(gone@.take(i as int).to_set()),
            decreases gone.len() - i,
        {
            let room = gone[i];
            fx_remove(&mut self.owners, room);
            proof {
                assert(gone@.take(i + 1) == gone@.take(i as int).push(room));
                crate::seqs::lemma_push_set(gone@.take(i as int), room);
            }
            i = i + 1;
        }
        proof {
            assert(gone@.take(gone.len() as int) == gone@);
            lemma_with_restricted(before, template, alive);
            lemma_kept(before[template].members, alive);
            assert forall|room: u64, t: u64|
                (self.owners@.contains_key(room) && self.owners@[room] == t) <==> #[trigger] sibling_owner(
                    after,
                    room,
                    t,
                ) by {
                if sibling_owner(before, room, t) && gone@.contains(room) {
                    assert(sibling_owner(before, room, template));
                }
            }
        }
        gone
    }

    /// Forgets every room that is not among `existing`: the families whose
    /// template rooms are gone, and the siblings that are gone. Hands back
    /// the rooms that were forgotten, each once, so that their records can
    /// be deleted.
    pub fn purge(&mut self, existing: &Vec<u64>) -> (dead: DeadRooms)
        requires
            old(self).wf(),
        ensures
            final(self).wf(),
            final(self)@ == surviving(old(self)@, existing@.to_set()),
            dead.templates@.no_duplicates(),
            dead.siblings@.no_duplicates(),
            forall|t: u64| #[trigger]
                dead.templates@.contains(t) <==> old(self)@.contains_key(t)
                    && !existing@.to_set().contains(t),
            forall|room: u64| #[trigger]
                dead.siblings@.contains(room) <==> dead_sibling(
                    old(self)@,
                    existing@.to_set(),
                    room,
                ),
    {
        let ghost before = self@;
        let ghost alive = existing@.to_set();
        proof {
            self.lemma_wf();
        }
        let ids = self.templates();
        let mut templates: Vec<u64> = Vec::new();
        let mut siblings: Vec<u64> = Vec::new();
        let mut i: usize = 0;
        while i < ids.len()
            invariant
                i <= ids.len(),
                self.wf(),
                state_wf(before),
                ids@.no_duplicates(),
                ids@.to_set() == before.dom(),
                alive == existing@.to_set(),
                self@ == purged_of(before, alive, ids@.take(i as int).to_set()),
                templates@.no_duplicates(),
                siblings@.no_duplicates(),
                forall|t: u64| #[trigger]
                    templates@.contains(t) <==> ids@.take(i as int).to_set().contains(t)
                        && !alive.contains(t),
                forall|room: u64| #[trigger]
                    siblings@.contains(room) <==> dead_sibling_of(
                        before,
                        alive,
                        ids@.take(i as int).to_set(),
                        room,
                    ),
            decreases ids.len() - i,
        {
            let t = ids[i];
            let ghost done = ids@.take(i as int).to_set();
            let ghost done_next = ids@.take(i + 1).to_set();
            let ghost siblings_before = siblings@;
            let ghost templates_before = templates@;
            proof {
                assert(ids@.take(i + 1) == ids@.take(i as int).push(t));
                crate::seqs::lemma_push_set(ids@.take(i as int), t);
                assert(!done.contains(t)) by {
                    if ids@.take(i as int).contains(t) {
                        let j = choose|j: int| 0 <= j < i && ids@.take(i as int)[j] == t;
                    }
                }
            }
            let mut lost: Vec<u64>;
            if !contains(existing, t) {
                match self.remove_template(t) {
                    Some(family) => {
                        lost = family.ids();
                        templates.push(t);
                    },
                    None => {
                        lost = Vec::new();
                    },
                }
                proof {
                    lemma_push_fresh(templates_before, t);
                }
            } else {
                lost = self.retain_siblings(t, existing);
                proof {
                    lemma_kept(before[t].members, alive);
                }
            }
            proof {
                assert forall|room: u64| #[trigger]
                    lost@.contains(room) <==> (sibling_owner(before, room, t) && (!alive.contains(
                        room,
                    ) || !alive.contains(t))) by {}
                assert forall|a: int, b: int|
                    0 <= a < siblings_before.len() && 0 <= b < lost@.len() implies siblings_before[a]
                    != lost@[b] by {
                    let room = lost@[b];
                    assert(lost@.contains(room));
                    if siblings_before[a] == room {
                        assert(siblings_before.contains(room));
                        let other = choose|o: u64| #[trigger]
                            sibling_owner(before, room, o) && done.contains(o) && (!alive.contains(
                                room,
                            ) || !alive.contains(o));
                    }
                }
                vstd::seq_lib::lemma_no_dup_in_concat(siblings_before, lost@);
                assert forall|room: u64| #[trigger]
                    (siblings_before + lost@).contains(room) <==> dead_sibling_of(
                        before,
                        alive,
                        done_next,
                        room,
                    ) by {
                    vstd::seq_lib::lemma_seq_concat_contains_all_elements(
                        siblings_before,
                        lost@,
                        room,
                    );
                    if dead_sibling_of(before, alive, done_next, room) {
                        let o = choose|o: u64| #[trigger]
                            sibling_owner(before, room, o) && done_next.contains(o) && (
                            !alive.contains(room) || !alive.contains(o));
                    }
                    if siblings_before.contains(room) {
                        let o = choose|o: u64| #[trigger]
                            sibling_owner(before, room, o) && done.contains(o) && (!alive.contains(
                                room,
                            ) || !alive.contains(o));
                    }
                }
                assert forall|x: u64| #[trigger]
                    templates@.contains(x) <==> done_next.contains(x) && !alive.contains(x) by {
                    if !alive.contains(t) {
                        vstd::seq_lib::lemma_seq_contains_after_push(templates_before, t, x);
                    }
                }
            }
            siblings.append(&mut lost);
            i = i + 1;
        }
        proof {
            assert(ids@.take(ids.len() as int) == ids@);
            assert forall|room: u64|
                dead_sibling_of(before, alive, before.dom(), room) <==> dead_sibling(
                    before,
                    alive,
                    room,
                ) by {
                if dead_sibling(before, alive, room) {
                    let o = choose|o: u64| #[trigger]
                        sibling_owner(before, room, o) && (!alive.contains(room) || !alive.contains(
                            o,
                        ));
                }
                if dead_sibling_of(before, alive, before.dom(), room) {
                    let o = choose|o: u64| #[trigger]
                        sibling_owner(before, room, o) && before.dom().contains(o) && (
                        !alive.contains(room) || !alive.contains(o));
                }
            }
        }
        DeadRooms { templates, siblings }
    }

    /// The template rooms of all families, each once, in no particular
    /// order.
    pub fn templates(&self) -> (ids: Vec<u64>)
        ensures
            ids@.no_duplicates(),
            ids@.to_set() == self@.dom(),
    {
        let ids = fx_keys(&self.families);
        ids
    }

    /// All families, each once, in no particular order.
    pub fn list_families(&self) -> (families: Vec<Family>)
        requires
            self.wf(),
        ensures
            families.len() == self@.dom().len(),
            forall|i: int|
                0 <= i < families.len() ==> self@.contains_key((#[trigger] families[i])@.template.id)
                    && families[i]@ == self@[families[i]@.template.id],
            forall|t: u64|
                self@.contains_key(t) ==> exists|i: int|
                    0 <= i < families.len() && (#[trigger] families[i])@ == self@[t],
            forall|i: int, j: int|
                0 <= i < j < families.len() ==> (#[trigger] families[i])@.template.id != (
                #[trigger] families[j])@.template.id,
    {
        let ids = self.templates();
        proof {
            ids@.unique_seq_to_set();
        }
        let mut families: Vec<Family> = Vec::new();
        let mut i: usize = 0;
        while i < ids.len()
            invariant
                i <= ids.len(),
                self.wf(),
                ids@.no_duplicates(),
                ids@.to_set() == self@.dom(),
                families.len() == i,
                forall|k: int|
                    0 <= k < i ==> self@.contains_key(ids@[k]) && (#[trigger] families[k])@
                        == self@[ids@[k]],
            decreases ids.len() - i,
        {
            assert(ids@.to_set().contains(ids@[i as int]));
            match fx_get(&self.families, ids[i]) {
                Some(family) => families.push(family.duplicate()),
                None => {
                    assert(false);
                },
            }
            i = i + 1;
        }
        proof {
            assert forall|t: u64| self@.contains_key(t) implies exists|k: int|
                0 <= k < families.len() && (#[trigger] families[k])@ == self@[t] by {
                let k = choose|k: int| 0 <= k < ids@.len() && ids@[k] == t;
                assert(families[k]@ == self@[t]);
            }
            assert forall|a: int, b: int| 0 <= a < b < families.len() implies (
            #[trigger] families[a])@.template.id != (#[trigger] families[b])@.template.id by {}
        }
        families
    }
}

} // verus!
