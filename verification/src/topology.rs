//! The persisted topology: the rows that record template rooms and their
//! sibling rooms, and the families that they stand for.
//!
//! The rows come from a join of the template rooms with their sibling
//! rooms: one row for each sibling, and one row without a sibling for each
//! template room that has none. Ids and numbers are persisted as signed
//! 64-bit integers and stand for the unsigned integers with the same bits.

use vstd::prelude::*;
use crate::cache::{
    admits_sibling, is_sibling, lemma_with_sibling, lemma_with_template, sibling_owner, state_wf,
    with_sibling, with_template, FamilyState,
};
use crate::family::{Family, FamilyView, TemplateRoom};

verus! {

/// One row of the join of template rooms and sibling rooms.
#[derive(Debug)]
pub struct ChannelRow {
    /// The template room.
    pub channel_id: i64,
    /// The naming pattern of the template room.
    pub channel_template: String,
    /// How many occupants a sibling can hold, if anything limits them.
    pub capacity: Option<i64>,
    /// The sibling room, if the row records one.
    pub child_id: Option<i64>,
    /// The number of the sibling room, if the row records one.
    pub child_number: Option<i64>,
}

/// What a [`ChannelRow`] holds.
pub struct ChannelRowView {
    pub channel_id: i64,
    pub channel_template: Seq<char>,
    pub capacity: Option<i64>,
    pub child_id: Option<i64>,
    pub child_number: Option<i64>,
}

impl View for ChannelRow {
    type V = ChannelRowView;

    open spec fn view(&self) -> ChannelRowView {
        ChannelRowView {
            channel_id: self.channel_id,
            channel_template: self.channel_template@,
            capacity: self.capacity,
            child_id: self.child_id,
            child_number: self.child_number,
        }
    }
}

/// The unsigned integer that is persisted as `raw`: the one with the same
/// 64 bits.
pub open spec fn stored(raw: i64) -> u64 {
    raw as u64
}

/// The unsigned integer that is persisted as `raw`, if any is.
pub open spec fn stored_option(raw: Option<i64>) -> Option<u64> {
    match raw {
        Some(raw) => Some(stored(raw)),
        None => None,
    }
}

/// The unsigned integer that is persisted as `raw`.
pub fn from_store(raw: i64) -> (value: u64)
    ensures
        value == stored(raw),
{
    #[verifier::truncate]
    (raw as u64)
}

/// The signed integer that `value` is persisted as.
pub fn to_store(value: u64) -> (raw: i64)
    ensures
        stored(raw) == value,
{
    let raw = #[verifier::truncate]
    (value as i64);
    assert((value as i64) as u64 == value) by (bit_vector);
    raw
}

/// The signed integers that `values` are persisted as, in order.
pub fn all_to_store(values: &Vec<u64>) -> (raw: Vec<i64>)
    ensures
        raw.len() == values.len(),
        forall|i: int| 0 <= i < raw.len() ==> stored(#[trigger] raw[i]) == values[i],
{
    let mut raw: Vec<i64> = Vec::new();
    let mut i: usize = 0;
    while i < values.len()
        invariant
            i <= values.len(),
            raw.len() == i,
            forall|k: int| 0 <= k < i ==> stored(#[trigger] raw[k]) == values[k],
        decreases values.len() - i,
    {
        raw.push(to_store(values[i]));
        i = i + 1;
    }
    raw
}

/// `families` with what `row` records: the template room, unless it is on
/// record already, and the sibling, unless the families do not admit it. A
/// row whose template room is a sibling on record records nothing.
pub open spec fn row_applied(families: Map<u64, FamilyView>, row: ChannelRowView) -> Map<
    u64,
    FamilyView,
> {
    let id = stored(row.channel_id);
    if is_sibling(families, id) {
        families
    } else {
        let placed = if families.contains_key(id) {
            families
        } else {
            with_template(families, id, row.channel_template, stored_option(row.capacity))
        };
        match (row.child_id, row.child_number) {
            (Some(child), Some(number)) => if admits_sibling(
                placed,
                id,
                stored(child),
                stored(number),
            ) {
                with_sibling(placed, id, stored(child), stored(number))
            } else {
                placed
            },
            _ => placed,
        }
    }
}

/// The families that `rows` record, read in order.
pub open spec fn loaded(rows: Seq<ChannelRowView>) -> Map<u64, FamilyView>
    decreases rows.len(),
{
    if rows.len() == 0 {
        Map::empty()
    } else {
        row_applied(loaded(rows.drop_last()), rows.last())
    }
}

/// Reading a row keeps the families well-formed and forgets no template
/// room.
pub proof fn lemma_row_applied(families: Map<u64, FamilyView>, row: ChannelRowView)
    requires
        state_wf(families),
    ensures
        state_wf(row_applied(families, row)),
        forall|t: u64| families.contains_key(t) ==> #[trigger] row_applied(families, row).contains_key(t),
        !is_sibling(families, stored(row.channel_id)) ==> row_applied(families, row).contains_key(
            stored(row.channel_id),
        ),
{
    let id = stored(row.channel_id);
    if !is_sibling(families, id) {
        let placed = if families.contains_key(id) {
            families
        } else {
            with_template(families, id, row.channel_template, stored_option(row.capacity))
        };
        if !families.contains_key(id) {
            lemma_with_template(families, id, row.channel_template, stored_option(row.capacity));
        }
        match (row.child_id, row.child_number) {
            (Some(child), Some(number)) => {
                if admits_sibling(placed, id, stored(child), stored(number)) {
                    lemma_with_sibling(placed, id, stored(child), stored(number));
                }
            },
            _ => {},
        }
    }
}

/// The families that rows record are well-formed, and the template room
/// of the first row is among them.
pub proof fn lemma_loaded(rows: Seq<ChannelRowView>)
    ensures
        state_wf(loaded(rows)),
        rows.len() > 0 ==> loaded(rows).contains_key(stored(rows[0].channel_id)),
    decreases rows.len(),
{
    if rows.len() > 0 {
        lemma_loaded(rows.drop_last());
        lemma_row_applied(loaded(rows.drop_last()), rows.last());
    }
}

/// What each of `rows` holds, in order.
pub open spec fn views_of(rows: Seq<ChannelRow>) -> Seq<ChannelRowView> {
    rows.map_values(|row: ChannelRow| row@)
}

/// Reads one row into the cache.
pub fn apply_row(state: &mut FamilyState, row: &ChannelRow)
    requires
        old(state).wf(),
    ensures
        final(state).wf(),
        final(state)@ == row_applied(old(state)@, row@),
{
    let ghost before = state@;
    proof {
        state.lemma_wf();
    }
    let id = from_store(row.channel_id);
    if state.get_family(id).is_none() {
        let capacity = match row.capacity {
            Some(raw) => Some(from_store(raw)),
            None => None,
        };
        let known = state.upsert_template(
            TemplateRoom { id, pattern: row.channel_template.clone(), capacity },
        );
        if !known {
            return ;
        }
    } else {
        assert(!is_sibling(before, id)) by {
            if is_sibling(before, id) {
                let t = choose|t: u64| sibling_owner(before, id, t);
            }
        }
    }
    match (row.child_id, row.child_number) {
        (Some(child), Some(number)) => {
            state.insert_sibling(id, from_store(child), from_store(number));
        },
        _ => {},
    }
}

/// The cache of a group, filled from the rows that record its rooms.
pub fn load(rows: &Vec<ChannelRow>) -> (state: FamilyState)
    ensures
        state.wf(),
        state@ == loaded(views_of(rows@)),
{
    let mut state = FamilyState::new();
    let mut i: usize = 0;
    while i < rows.len()
        invariant
            i <= rows.len(),
            state.wf(),
            state@ == loaded(views_of(rows@).take(i as int)),
        decreases rows.len() - i,
    {
        proof {
            assert(views_of(rows@).take(i + 1).drop_last() == views_of(rows@).take(i as int));
        }
        apply_row(&mut state, &rows[i]);
        i = i + 1;
    }
    assert(views_of(rows@).take(rows.len() as int) == views_of(rows@));
    state
}

/// The family that `rows` record for the template room of their first
/// row; `None` where there is no row.
pub fn resolve_family(rows: &Vec<ChannelRow>) -> (family: Option<Family>)
    ensures
        family is Some <==> rows.len() > 0,
        family matches Some(f) ==> f.wf() && f@ == loaded(views_of(rows@))[stored(
            rows[0].channel_id,
        )],
{
    if rows.len() == 0 {
        return None;
    }
    let state = load(rows);
    proof {
        state.lemma_wf();
        lemma_loaded(views_of(rows@));
    }
    match state.get_family(from_store(rows[0].channel_id)) {
        Some(family) => Some(family.duplicate()),
        None => None,
    }
}

} // verus!
