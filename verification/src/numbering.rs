//! The numbering allocator: which number the next sibling room gets.
//!
//! The rooms of one family are numbered from one. A number is *live* while a
//! room bears it. The counter of a family is always the smallest number
//! that is not live, so a number that a closed room gave back is handed out
//! again before any larger one.
//!
//! The numbers are persisted outside; a [`Numbering`] is what one
//! transaction reads, changes and writes back.

use vstd::prelude::*;
use crate::seqs::{lemma_push_fresh, lemma_push_set, lemma_remove_at};

verus! {

/// Whether `n` is a number that some room in `live` bears.
pub open spec fn taken(live: Set<u64>, n: int) -> bool {
    0 <= n <= u64::MAX && live.contains(n as u64)
}

/// Whether `n` is the smallest number, counted from one, that no room in
/// `live` bears.
pub open spec fn is_smallest_free(live: Set<u64>, n: int) -> bool {
    &&& n >= 1
    &&& !taken(live, n)
    &&& forall|m: int| 1 <= m < n ==> taken(live, m)
}

/// The smallest number, counted from one, that no room in `live` bears.
pub open spec fn smallest_free(live: Set<u64>) -> int {
    choose|n: int| is_smallest_free(live, n)
}

/// The smallest free number at or above `from`, given that every number
/// from one up to `from` is taken.
proof fn lemma_smallest_free_from(live: Set<u64>, from: int) -> (n: int)
    requires
        from >= 1,
        forall|m: int| 1 <= m < from ==> taken(live, m),
    ensures
        is_smallest_free(live, n),
        n >= from,
    decreases u64::MAX + 1 - from,
{
    if taken(live, from) {
        lemma_smallest_free_from(live, from + 1)
    } else {
        from
    }
}

/// There is a smallest free number, and only one.
pub proof fn lemma_smallest_free(live: Set<u64>)
    ensures
        is_smallest_free(live, smallest_free(live)),
        forall|n: int| is_smallest_free(live, n) ==> n == smallest_free(live),
{
    let witness = lemma_smallest_free_from(live, 1);
    let least = smallest_free(live);
    assert forall|n: int| is_smallest_free(live, n) implies n == least by {}
}

/// A number that nobody bears is never skipped: the smallest free number is
/// at most any free number.
pub proof fn lemma_free_is_not_skipped(live: Set<u64>, free: int)
    requires
        free >= 1,
        !taken(live, free),
    ensures
        smallest_free(live) <= free,
{
    lemma_smallest_free(live);
}

/// One request to the allocator.
pub enum NumberingOp {
    /// Reserve the next number.
    Allocate,
    /// Give this number back.
    Release(u64),
}

/// The live numbers after `op`, where they were `live` before.
///
/// A reservation takes the smallest free number, unless that would leave
/// no number free; then nothing changes.
pub open spec fn live_after(live: Set<u64>, op: NumberingOp) -> Set<u64> {
    match op {
        NumberingOp::Allocate => if can_allocate(live) {
            live.insert(smallest_free(live) as u64)
        } else {
            live
        },
        NumberingOp::Release(n) => live.remove(n),
    }
}

/// Whether a number can be reserved: whether a number is still free once
/// the smallest free one is taken.
pub open spec fn can_allocate(live: Set<u64>) -> bool {
    &&& smallest_free(live) <= u64::MAX
    &&& smallest_free(live.insert(smallest_free(live) as u64)) <= u64::MAX
}

/// The live numbers after all of `ops`, in order.
pub open spec fn live_after_all(live: Set<u64>, ops: Seq<NumberingOp>) -> Set<u64>
    decreases ops.len(),
{
    if ops.len() == 0 {
        live
    } else {
        live_after(live_after_all(live, ops.drop_last()), ops.last())
    }
}

/// Whatever requests came before, in whatever order: the number that a
/// reservation hands out is borne by no room at that moment, so no two
/// live rooms ever share a number; and it is at most every number that is
/// free at that moment, so a number that was given back is handed out
/// again before the counter grows past it.
pub proof fn lemma_numbers_never_collide(live: Set<u64>, ops: Seq<NumberingOp>, free: int)
    requires
        free >= 1,
        !taken(live_after_all(live, ops), free),
    ensures
        !taken(live_after_all(live, ops), smallest_free(live_after_all(live, ops))),
        smallest_free(live_after_all(live, ops)) <= free,
{
    lemma_smallest_free(live_after_all(live, ops));
    lemma_free_is_not_skipped(live_after_all(live, ops), free);
}

/// Why no number was reserved.
#[derive(Debug, Clone, Copy, PartialEq, Eq)]
pub enum AllocationFailed {
    /// Every number is live.
    Exhausted,
    /// The numbers could not be read or written.
    Persistence,
}

/// The numbers of one family: which are live, and which comes next.
#[derive(Debug)]
pub struct Numbering {
    next_number: u64,
    live: Vec<u64>,
}

fn position(numbers: &Vec<u64>, n: u64) -> (at: Option<usize>)
    ensures
        match at {
            Some(i) => i < numbers.len() && numbers@[i as int] == n,
            None => !numbers@.contains(n),
        },
{
    let mut i: usize = 0;
    while i < numbers.len()
        invariant
            i <= numbers.len(),
            forall|j: int| 0 <= j < i ==> numbers@[j] != n,
        decreases numbers.len() - i,
    {
        if numbers[i] == n {
            return Some(i);
        }
        i = i + 1;
    }
    None
}

/// The smallest free number at or above `from`, or `None` where that is
/// more than a `u64` holds.
fn first_free_from(numbers: &Vec<u64>, from: u64) -> (found: Option<u64>)
    requires
        from >= 1,
        forall|m: int| 1 <= m < from ==> taken(numbers@.to_set(), m),
    ensures
        match found {
            Some(n) => n == smallest_free(numbers@.to_set()),
            None => smallest_free(numbers@.to_set()) > u64::MAX,
        },
{
    let ghost live = numbers@.to_set();
    proof {
        lemma_smallest_free(live);
    }
    let mut candidate: u64 = from;
    loop
        invariant
            candidate >= 1,
            live == numbers@.to_set(),
            forall|m: int| 1 <= m < candidate ==> taken(live, m),
            is_smallest_free(live, smallest_free(live)),
            forall|n: int| is_smallest_free(live, n) ==> n == smallest_free(live),
        decreases u64::MAX - candidate,
    {
        if position(numbers, candidate).is_none() {
            assert(is_smallest_free(live, candidate as int));
            return Some(candidate);
        }
        if candidate == u64::MAX {
            assert(smallest_free(live) > u64::MAX);
            return None;
        }
        candidate = candidate + 1;
    }
}

impl Numbering {
    /// The numbers that are live.
    pub closed spec fn live(&self) -> Set<u64> {
        self.live@.to_set()
    }

    /// The number that comes next.
    pub closed spec fn next(&self) -> u64 {
        self.next_number
    }

    /// How many rooms bear a number.
    pub closed spec fn count(&self) -> nat {
        self.live@.len()
    }

    /// No number is on record twice, and the next number is the smallest
    /// that is free.
    pub closed spec fn wf(&self) -> bool {
        &&& self.live@.no_duplicates()
        &&& self.next_number == smallest_free(self.live@.to_set())
    }

    /// In a well-formed numbering the next number is the smallest free one:
    /// it is at least one, no room bears it, and rooms bear all numbers
    /// below it.
    pub proof fn lemma_next_is_smallest_free(&self)
        requires
            self.wf(),
        ensures
            self.next() == smallest_free(self.live()),
            is_smallest_free(self.live(), self.next() as int),
            self.live().finite(),
            self.live().len() == self.count(),
    {
        lemma_smallest_free(self.live());
        self.live@.unique_seq_to_set();
    }

    /// The numbering of a family without rooms: one comes next.
    pub fn new() -> (numbering: Numbering)
        ensures
            numbering.wf(),
            numbering.live() == Set::<u64>::empty(),
            numbering.next() == 1,
    {
        let numbering = Numbering { next_number: 1, live: Vec::new() };
        proof {
            assert(numbering.live@.to_set() =~= Set::<u64>::empty());
            lemma_smallest_free(Set::<u64>::empty());
            assert(is_smallest_free(Set::<u64>::empty(), 1));
        }
        numbering
    }

    /// The numbering of a family whose rooms bear `numbers`, with the next
    /// number computed afresh from them. A number that occurs twice counts
    /// once.
    ///
    /// Fails only where every number from one up is live.
    pub fn initialize(numbers: &Vec<u64>) -> (r: Result<Numbering, AllocationFailed>)
        ensures
            match r {
                Ok(numbering) => {
                    &&& numbering.wf()
                    &&& numbering.live() == numbers@.to_set()
                    &&& numbering.next() == smallest_free(numbers@.to_set())
                },
                Err(e) => e == AllocationFailed::Exhausted && smallest_free(numbers@.to_set())
                    > u64::MAX,
            },
    {
        let mut live: Vec<u64> = Vec::new();
        let mut i: usize = 0;
        while i < numbers.len()
            invariant
                i <= numbers.len(),
                live@.no_duplicates(),
                live@.to_set() == numbers@.take(i as int).to_set(),
            decreases numbers.len() - i,
        {
            let n = numbers[i];
            proof {
                assert(numbers@.take(i + 1) == numbers@.take(i as int).push(n));
                lemma_push_set(numbers@.take(i as int), n);
            }
            if position(&live, n).is_none() {
                proof {
                    lemma_push_fresh(live@, n);
                }
                live.push(n);
            }
            i = i + 1;
        }
        assert(numbers@.take(numbers.len() as int) == numbers@);
        match first_free_from(&live, 1) {
            Some(next_number) => Ok(Numbering { next_number, live }),
            None => Err(AllocationFailed::Exhausted),
        }
    }

    /// The number that comes next.
    pub fn next_number(&self) -> (n: u64)
        ensures
            n == self.next(),
    {
        self.next_number
    }

    /// Whether a room bears `n`.
    pub fn is_live(&self, n: u64) -> (b: bool)
        ensures
            b == self.live().contains(n),
    {
        position(&self.live, n).is_some()
    }

    /// How many rooms bear a number.
    pub fn len(&self) -> (n: usize)
        ensures
            n == self.count(),
    {
        self.live.len()
    }

    /// Reserves the next number and hands it out. The counter moves on to
    /// the smallest number that is free then.
    ///
    /// Fails, and changes nothing, only where no number would be free
    /// afterwards.
    pub fn allocate(&mut self) -> (r: Result<u64, AllocationFailed>)
        requires
            old(self).wf(),
        ensures
            final(self).wf(),
            r is Ok <==> can_allocate(old(self).live()),
            final(self).live() == live_after(old(self).live(), NumberingOp::Allocate),
            match r {
                Ok(n) => {
                    &&& n == old(self).next()
                    &&& n >= 1
                    &&& !old(self).live().contains(n)
                    &&& final(self).live() == old(self).live().insert(n)
                    &&& final(self).next() == smallest_free(final(self).live())
                    &&& final(self).next() > n
                    &&& final(self).count() == old(self).count() + 1
                },
                Err(e) => {
                    &&& e == AllocationFailed::Exhausted
                    &&& final(self).live() == old(self).live()
                    &&& final(self).next() == old(self).next()
                    &&& final(self).count() == old(self).count()
                },
            },
    {
        let n = self.next_number;
        let ghost before = self.live@;
        proof {
            lemma_smallest_free(before.to_set());
        }
        if n == u64::MAX {
            proof {
                let after = before.to_set().insert(n);
                lemma_smallest_free(after);
                assert forall|m: int| 1 <= m <= u64::MAX implies taken(after, m) by {
                    if m < n {
                        assert(taken(before.to_set(), m));
                    }
                }
                assert(smallest_free(after) > u64::MAX);
            }
            return Err(AllocationFailed::Exhausted);
        }
        proof {
            lemma_push_fresh(before, n);
        }
        self.live.push(n);
        proof {
            assert forall|m: int| 1 <= m < n + 1 implies taken(self.live@.to_set(), m) by {
                if m < n {
                    assert(taken(before.to_set(), m));
                }
            }
        }
        match first_free_from(&self.live, n + 1) {
            Some(next_number) => {
                self.next_number = next_number;
                proof {
                    lemma_smallest_free(self.live@.to_set());
                }
                Ok(n)
            },
            None => {
                let last = self.live.pop();
                assert(self.live@ == before);
                Err(AllocationFailed::Exhausted)
            },
        }
    }

    /// Gives `number` back. The counter falls back to it where it is
    /// smaller than the counter was. Answers whether a room bore it.
    pub fn release(&mut self, number: u64) -> (was_live: bool)
        requires
            old(self).wf(),
        ensures
            final(self).wf(),
            was_live == old(self).live().contains(number),
            final(self).live() == old(self).live().remove(number),
            final(self).live() == live_after(old(self).live(), NumberingOp::Release(number)),
            final(self).next() == smallest_free(final(self).live()),
            was_live && number >= 1 ==> final(self).next() <= number,
            final(self).next() <= old(self).next(),
            final(self).count() == if was_live {
                old(self).count() - 1
            } else {
                old(self).count() as int
            },
    {
        let ghost before = self.live@;
        proof {
            lemma_smallest_free(before.to_set());
        }
        match position(&self.live, number) {
            None => {
                false
            },
            Some(at) => {
                self.live.remove(at);
                proof {
                    let after = self.live@;
                    lemma_remove_at(before, at as int);
                    let next = if 1 <= number < self.next_number {
                        number
                    } else {
                        self.next_number
                    };
                    assert(is_smallest_free(after.to_set(), next as int)) by {
                        assert forall|m: int| 1 <= m < next implies taken(after.to_set(), m) by {
                            assert(taken(before.to_set(), m));
                        }
                    }
                    lemma_smallest_free(after.to_set());
                }
                if 1 <= number && number < self.next_number {
                    self.next_number = number;
                }
                true
            },
        }
    }
}

/// Computes the next number of every family afresh from the numbers that
/// its rooms bear: `families[i]` holds the numbers of one family, and the
/// answer at `i` is the numbering of that family, or why it has none.
pub fn initialize_all(families: &Vec<Vec<u64>>) -> (numberings: Vec<Result<Numbering, AllocationFailed>>)
    ensures
        numberings.len() == families.len(),
        forall|i: int|
            0 <= i < families.len() ==> match #[trigger] numberings[i] {
                Ok(numbering) => {
                    &&& numbering.wf()
                    &&& numbering.live() == families[i]@.to_set()
                    &&& numbering.next() == smallest_free(families[i]@.to_set())
                },
                Err(e) => e == AllocationFailed::Exhausted && smallest_free(families[i]@.to_set())
                    > u64::MAX,
            },
{
    let mut numberings: Vec<Result<Numbering, AllocationFailed>> = Vec::new();
    let mut i: usize = 0;
    while i < families.len()
        invariant
            i <= families.len(),
            numberings.len() == i,
            forall|k: int|
                0 <= k < i ==> match #[trigger] numberings[k] {
                    Ok(numbering) => {
                        &&& numbering.wf()
                        &&& numbering.live() == families[k]@.to_set()
                        &&& numbering.next() == smallest_free(families[k]@.to_set())
                    },
                    Err(e) => e == AllocationFailed::Exhausted && smallest_free(
                        families[k]@.to_set(),
                    ) > u64::MAX,
                },
        decreases families.len() - i,
    {
        numberings.push(Numbering::initialize(&families[i]));
        i = i + 1;
    }
    numberings
}

} // verus!
