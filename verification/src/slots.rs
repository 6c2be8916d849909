//! The table of breakpoints that an exception handler looks up.
use vstd::prelude::*;

verus! {

/// A table of breakpoint slots. A slot maps a target to its detour; a slot whose
/// target is null is free.
#[derive(Debug)]
pub struct SlotTable {
    pub targets: Vec<u64>,
    pub detours: Vec<u64>,
}

/// Why a target gets no slot.
#[derive(Clone, Copy, Debug, PartialEq, Eq, Structural)]
pub enum SlotError {
    AlreadyHooked,
    NoFreeSlot,
}

/// The number of slots below `upto` that are in use.
pub open spec fn used_upto(targets: Seq<u64>, upto: int) -> nat
    decreases upto,
{
    if upto <= 0 {
        0
    } else {
        used_upto(targets, upto - 1) + if targets[upto - 1] != 0 {
            1nat
        } else {
            0nat
        }
    }
}

/// The first free slot from `at` on.
pub open spec fn first_free(targets: Seq<u64>, at: int) -> Option<int>
    decreases targets.len() - at,
{
    if at < 0 || at >= targets.len() {
        None
    } else if targets[at] == 0 {
        Some(at)
    } else {
        first_free(targets, at + 1)
    }
}

/// The slot that `target` gets.
pub open spec fn slot_for(targets: Seq<u64>, target: u64) -> Result<int, SlotError> {
    if targets.contains(target) {
        Err(SlotError::AlreadyHooked)
    } else {
        match first_free(targets, 0) {
            Some(slot) => Ok(slot),
            None => Err(SlotError::NoFreeSlot),
        }
    }
}

/// Taking a free slot makes one more slot used, and giving one up makes one less.
proof fn lemma_used_update(targets: Seq<u64>, slot: int, value: u64, upto: int)
    requires
        0 <= slot < targets.len(),
        0 <= upto <= targets.len(),
    ensures
        used_upto(targets.update(slot, value), upto) == used_upto(targets, upto) + if slot < upto {
            (if value != 0 {
                1int
            } else {
                0int
            }) - (if targets[slot] != 0 {
                1int
            } else {
                0int
            })
        } else {
            0
        },
        used_upto(targets, upto) <= upto,
    decreases upto,
{
    if upto > 0 {
        lemma_used_update(targets, slot, value, upto - 1);
    }
}

/// A slot that was found is free.
proof fn lemma_first_free(targets: Seq<u64>, at: int)
    requires
        0 <= at,
    ensures
        match first_free(targets, at) {
            Some(slot) => at <= slot < targets.len() && targets[slot] == 0,
            None => forall|i: int| at <= i < targets.len() ==> targets[i] != 0,
        },
    decreases targets.len() - at,
{
    if at < targets.len() && targets[at] != 0 {
        lemma_first_free(targets, at + 1);
    }
}

/// Where a table without a free slot is full, every slot is used.
pub proof fn lemma_full_when_none_free(targets: Seq<u64>)
    ensures
        first_free(targets, 0) is None ==> used_upto(targets, targets.len() as int)
            == targets.len(),
{
    lemma_first_free(targets, 0);
    if first_free(targets, 0) is None {
        lemma_all_used(targets, targets.len() as int);
    }
}

/// Slots that are all in use are counted completely.
proof fn lemma_all_used(targets: Seq<u64>, upto: int)
    requires
        0 <= upto <= targets.len(),
        forall|i: int| 0 <= i < upto ==> targets[i] != 0,
    ensures
        used_upto(targets, upto) == upto,
    decreases upto,
{
    if upto > 0 {
        lemma_all_used(targets, upto - 1);
    }
}

impl SlotTable {
    /// Every slot has a target and a detour or neither, and no target has two
    /// slots.
    pub open spec fn wf(self) -> bool {
        &&& self.targets@.len() == self.detours@.len()
        &&& forall|i: int|
            0 <= i < self.targets@.len() ==> ((#[trigger] self.targets@[i]) == 0
                <==> self.detours@[i] == 0)
        &&& forall|i: int, j: int|
            0 <= i < j < self.targets@.len() && self.targets@[i] != 0 ==> self.targets@[i]
                != self.targets@[j]
    }

    /// The number of slots in use.
    pub open spec fn used(self) -> nat {
        used_upto(self.targets@, self.targets@.len() as int)
    }

    /// The detour of the slot whose target is `address`.
    pub open spec fn detour_of(self, address: u64, detour: u64) -> bool {
        address != 0 && exists|i: int|
            0 <= i < self.targets@.len() && #[trigger] self.targets@[i] == address
                && self.detours@[i] == detour
    }

    /// Returns a table of `capacity` free slots.
    pub fn new(capacity: usize) -> (table: SlotTable)
        ensures
            table.wf(),
            table.targets@ == Seq::new(capacity as nat, |i: int| 0u64),
            table.used() == 0,
    {
        let mut targets: Vec<u64> = Vec::new();
        let mut detours: Vec<u64> = Vec::new();
        let mut i: usize = 0;
        while i < capacity
            invariant
                i <= capacity,
                targets@ == Seq::new(i as nat, |k: int| 0u64),
                detours@ == Seq::new(i as nat, |k: int| 0u64),
                used_upto(targets@, i as int) == 0,
            decreases capacity - i,
        {
            let ghost before = targets@;
            targets.push(0);
            detours.push(0);
            i = i + 1;
            proof {
                assert(targets@ =~= Seq::new(i as nat, |k: int| 0u64));
                assert(detours@ =~= Seq::new(i as nat, |k: int| 0u64));
                lemma_used_prefix(before, targets@, i - 1);
            }
        }
        SlotTable { targets, detours }
    }

    /// Returns the slot that `target` gets: the first free one, unless the target
    /// has one already.
    pub fn reserve(&self, target: u64) -> (slot: Result<usize, SlotError>)
        requires
            target != 0,
        ensures
            match slot {
                Ok(index) => slot_for(self.targets@, target) == Ok::<int, SlotError>(index as int)
                    && index < self.targets@.len() && self.targets@[index as int] == 0,
                Err(error) => slot_for(self.targets@, target) == Err::<int, SlotError>(error),
            },
    {
        let mut free: Option<usize> = None;
        let mut i: usize = 0;
        while i < self.targets.len()
            invariant
                target != 0,
                i <= self.targets@.len(),
                forall|j: int| 0 <= j < i ==> self.targets@[j] != target,
                match free {
                    Some(found) => first_free(self.targets@, 0) == Some(found as int) && found < i,
                    None => first_free(self.targets@, i as int) == first_free(self.targets@, 0),
                },
            decreases self.targets@.len() - i,
        {
            let occupied: u64 = self.targets[i];
            if occupied == target {
                assert(self.targets@[i as int] == target);
                return Err(SlotError::AlreadyHooked);
            }
            if occupied == 0 && free.is_none() {
                free = Some(i);
            }
            i = i + 1;
        }
        assert(!self.targets@.contains(target));
        proof {
            lemma_first_free(self.targets@, 0);
        }
        match free {
            Some(found) => Ok(found),
            None => Err(SlotError::NoFreeSlot),
        }
    }

    /// Fills a free slot.
    pub fn publish(&mut self, slot: usize, target: u64, detour: u64)
        requires
            old(self).wf(),
            slot < old(self).targets@.len(),
            old(self).targets@[slot as int] == 0,
            !old(self).targets@.contains(target),
            target != 0,
            detour != 0,
        ensures
            final(self).wf(),
            final(self).targets@ == old(self).targets@.update(slot as int, target),
            final(self).detours@ == old(self).detours@.update(slot as int, detour),
            final(self).used() == old(self).used() + 1,
            final(self).used() <= final(self).targets@.len(),
    {
        self.detours.set(slot, detour);
        self.targets.set(slot, target);
        proof {
            lemma_used_update(
                old(self).targets@,
                slot as int,
                target,
                old(self).targets@.len() as int,
            );
            lemma_used_update(self.targets@, slot as int, target, self.targets@.len() as int);
            assert forall|i: int, j: int|
                0 <= i < j < self.targets@.len() && self.targets@[i] != 0 implies self.targets@[i]
                != self.targets@[j] by {
                if i == slot {
                    assert(old(self).targets@[j] != target);
                }
                if j == slot {
                    assert(old(self).targets@[i] != target);
                }
            }
        }
    }

    /// Frees a slot.
    pub fn clear(&mut self, slot: usize)
        requires
            old(self).wf(),
            slot < old(self).targets@.len(),
        ensures
            final(self).wf(),
            final(self).targets@ == old(self).targets@.update(slot as int, 0),
            final(self).detours@ == old(self).detours@.update(slot as int, 0),
            final(self).used() == old(self).used() - if old(self).targets@[slot as int] != 0 {
                1int
            } else {
                0int
            },
    {
        self.targets.set(slot, 0);
        self.detours.set(slot, 0);
        proof {
            lemma_used_update(old(self).targets@, slot as int, 0, old(self).targets@.len() as int);
        }
    }

    /// Returns the detour of the slot whose target is `address`, `None` where
    /// there is no such slot.
    pub fn lookup(&self, address: u64) -> (detour: Option<u64>)
        requires
            self.wf(),
        ensures
            match detour {
                Some(found) => self.detour_of(address, found) && found != 0,
                None => forall|other: u64| !self.detour_of(address, other),
            },
            detour is None ==> address == 0 || !self.targets@.contains(address),
    {
        if address == 0 {
            return None;
        }
        let mut i: usize = 0;
        while i < self.targets.len()
            invariant
                self.wf(),
                address != 0,
                i <= self.targets@.len(),
                forall|j: int| 0 <= j < i ==> self.targets@[j] != address,
            decreases self.targets@.len() - i,
        {
            if self.targets[i] == address {
                let detour: u64 = self.detours[i];
                if detour != 0 {
                    return Some(detour);
                }
            }
            i = i + 1;
        }
        None
    }
}

/// Slots below a bound are counted alike where they are alike.
proof fn lemma_used_prefix(a: Seq<u64>, b: Seq<u64>, upto: int)
    requires
        upto <= a.len(),
        upto <= b.len(),
        forall|i: int| 0 <= i < upto ==> a[i] == b[i],
    ensures
        used_upto(a, upto) == used_upto(b, upto),
    decreases upto,
{
    if upto > 0 {
        lemma_used_prefix(a, b, upto - 1);
    }
}

/// A target has one detour: two lookups of the same address agree.
pub proof fn lemma_detour_is_unique(table: SlotTable, address: u64, a: u64, b: u64)
    requires
        table.wf(),
        table.detour_of(address, a),
        table.detour_of(address, b),
    ensures
        a == b,
{
    let i = choose|i: int|
        0 <= i < table.targets@.len() && #[trigger] table.targets@[i] == address
            && table.detours@[i] == a;
    let j = choose|j: int|
        0 <= j < table.targets@.len() && #[trigger] table.targets@[j] == address
            && table.detours@[j] == b;
    assert(i == j);
}

/// Filling a free slot and freeing it again leaves the table as it was.
pub proof fn lemma_publish_then_clear(table: SlotTable, slot: int, target: u64, detour: u64)
    requires
        table.wf(),
        0 <= slot < table.targets@.len(),
        table.targets@[slot] == 0,
    ensures
        table.targets@.update(slot, target).update(slot, 0) == table.targets@,
        table.detours@.update(slot, detour).update(slot, 0) == table.detours@,
{
    assert(table.targets@.update(slot, target).update(slot, 0) =~= table.targets@);
    assert(table.detours@.update(slot, detour).update(slot, 0) =~= table.detours@);
}

} // verus!
