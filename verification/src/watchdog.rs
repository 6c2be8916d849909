//! A watchdog over patched bytes.
//!
//! Some code checks its own integrity and puts its original bytes back, which
//! removes a hook silently. A watchdog compares guarded regions with what they
//! should hold, and rewrites or reports those that differ.
use vstd::prelude::*;

use crate::bytes::{copy_range, same_bytes};
use crate::mem::CodeWrite;
use crate::transaction::{holds, written};

verus! {

/// Identifies a guarded region.
#[derive(Clone, Copy, Debug, PartialEq, Eq, Hash, Structural)]
pub struct GuardId {
    pub id: u64,
}

impl GuardId {
    /// Returns the number of the guard.
    pub fn raw(self) -> (raw: u64)
        ensures
            raw == self.id,
    {
        self.id
    }

    /// Returns the guard with a number that `raw` returned.
    pub fn from_raw(raw: u64) -> (guard: GuardId)
        ensures
            guard.id == raw,
    {
        GuardId { id: raw }
    }
}

/// What a watchdog does with a region that was tampered with.
#[derive(Clone, Copy, Debug, PartialEq, Eq, Structural)]
pub enum WatchMode {
    /// The expected bytes are written back.
    Restore,
    /// The region is reported and left as it is.
    DetectOnly,
}

impl Default for WatchMode {
    fn default() -> (mode: WatchMode)
        ensures
            mode == WatchMode::Restore,
    {
        WatchMode::Restore
    }
}

impl WatchMode {
    /// The number of the mode.
    pub open spec fn number(self) -> u8 {
        match self {
            WatchMode::Restore => 0,
            WatchMode::DetectOnly => 1,
        }
    }

    /// Returns the number of the mode.
    pub fn as_u8(self) -> (number: u8)
        ensures
            number == self.number(),
    {
        match self {
            WatchMode::Restore => 0,
            WatchMode::DetectOnly => 1,
        }
    }

    /// Returns the mode with the given number. Every number but 0 only detects.
    pub fn from_u8(number: u8) -> (mode: WatchMode)
        ensures
            mode == (if number == 0 {
                WatchMode::Restore
            } else {
                WatchMode::DetectOnly
            }),
    {
        if number == 0 {
            WatchMode::Restore
        } else {
            WatchMode::DetectOnly
        }
    }
}

/// A mode comes back from its number.
pub proof fn lemma_mode_round_trip(mode: WatchMode)
    ensures
        (if mode.number() == 0 {
            WatchMode::Restore
        } else {
            WatchMode::DetectOnly
        }) == mode,
{
}

/// Why a region is not guarded.
#[derive(Clone, Copy, Debug, PartialEq, Eq, Structural)]
pub enum WatchdogError {
    /// A null target or an empty region was given.
    InvalidParameter,
}

impl WatchdogError {
    /// The text of the error.
    pub open spec fn text(self) -> Seq<char> {
        "invalid watchdog region (null target or zero len)"@
    }

    /// Returns the text of the error.
    pub fn to_string(&self) -> (text: String)
        ensures
            text@ == self.text(),
    {
        "invalid watchdog region (null target or zero len)".to_owned()
    }
}

/// What is reported of a region that was tampered with.
#[derive(Debug)]
pub struct TamperEvent<'a> {
    pub guard_id: GuardId,
    /// The address of the region.
    pub target: u64,
    /// The bytes that should be there.
    pub expected: &'a [u8],
    /// The bytes that were there.
    pub found: &'a [u8],
    /// Whether the expected bytes were written back.
    pub restored: bool,
}

/// A tampered region that is to be reported.
#[derive(Debug)]
pub struct TamperHit {
    pub id: u64,
    pub target: u64,
    pub expected: Vec<u8>,
    pub found: Vec<u8>,
    pub restored: bool,
}

impl TamperHit {
    /// Returns what is reported.
    pub fn event(&self) -> (event: TamperEvent<'_>)
        ensures
            event.guard_id.id == self.id,
            event.target == self.target,
            event.expected@ == self.expected@,
            event.found@ == self.found@,
            event.restored == self.restored,
    {
        TamperEvent {
            guard_id: GuardId { id: self.id },
            target: self.target,
            expected: self.expected.as_slice(),
            found: self.found.as_slice(),
            restored: self.restored,
        }
    }
}

/// A guarded region.
#[derive(Debug)]
pub struct GuardedRegion {
    pub id: u64,
    pub target: u64,
    /// The bytes that should be there.
    pub expected: Vec<u8>,
    /// Whether the bytes differed at the last sweep.
    pub tampered: bool,
}

/// The guarded regions of a watchdog, and what it does with them.
#[derive(Debug)]
pub struct Watchdog {
    pub regions: Vec<GuardedRegion>,
    /// How often a region was rewritten.
    pub restorations: u64,
    pub next_id: u64,
    pub mode: WatchMode,
    /// The time between two sweeps, in nanoseconds.
    pub interval: u128,
}

/// The time between two sweeps that stands for no time: a millisecond.
pub const MINIMUM_INTERVAL: u128 = 1_000_000;

/// The regions among the first `upto` whose number is not `id`.
pub open spec fn without(regions: Seq<GuardedRegion>, id: u64, upto: int) -> Seq<GuardedRegion>
    decreases upto,
{
    if upto <= 0 {
        Seq::empty()
    } else if regions[upto - 1].id == id {
        without(regions, id, upto - 1)
    } else {
        without(regions, id, upto - 1).push(regions[upto - 1])
    }
}

/// What a sweep asks for after it was told what a region holds.
#[derive(Debug)]
pub enum SweepStep {
    /// Nothing: the region is done.
    Continue,
    /// The expected bytes are to be written back.
    Rewrite(CodeWrite),
}

/// A sweep over the guarded regions.
#[derive(Debug)]
pub struct Sweep {
    /// What is done in this sweep, whatever the mode becomes meanwhile.
    pub mode: WatchMode,
    /// The region that is looked at next.
    pub next: usize,
    /// What is to be reported.
    pub hits: Vec<TamperHit>,
}

impl Watchdog {
    /// Guards are numbered from 1 on, and no number is used twice.
    pub open spec fn wf(self) -> bool {
        &&& self.next_id >= 1
        &&& forall|i: int|
            0 <= i < self.regions@.len() ==> 1 <= (#[trigger] self.regions@[i]).id < self.next_id
        &&& forall|i: int, j: int|
            0 <= i < j < self.regions@.len() ==> (#[trigger] self.regions@[i]).id != (
            #[trigger] self.regions@[j]).id
    }

    /// Returns a watchdog without regions that rewrites what was tampered with.
    /// An interval of zero becomes a millisecond.
    pub fn with_interval(interval: u128) -> (watchdog: Watchdog)
        ensures
            watchdog.wf(),
            watchdog.regions@.len() == 0,
            watchdog.restorations == 0,
            watchdog.next_id == 1,
            watchdog.mode == WatchMode::Restore,
            watchdog.interval == if interval == 0 {
                MINIMUM_INTERVAL
            } else {
                interval
            },
    {
        Watchdog {
            regions: Vec::new(),
            restorations: 0,
            next_id: 1,
            mode: WatchMode::Restore,
            interval: if interval == 0 {
                MINIMUM_INTERVAL
            } else {
                interval
            },
        }
    }

    /// Sets what is done with a region that was tampered with, from the next
    /// sweep on.
    pub fn set_mode(&mut self, mode: WatchMode)
        ensures
            *final(self) == (Watchdog { mode, ..*old(self) }),
    {
        self.mode = mode;
    }

    /// Returns what is done with a region that was tampered with.
    pub fn mode(&self) -> (mode: WatchMode)
        ensures
            mode == self.mode,
    {
        self.mode
    }

    /// Guards the region at `target`, which holds `bytes` now.
    pub fn guard(&mut self, target: u64, bytes: &[u8]) -> (guard: Result<GuardId, WatchdogError>)
        ensures
            guarded_after(*old(self), *final(self), target, bytes@, guard),
            old(self).wf() && old(self).next_id < u64::MAX ==> final(self).wf(),
    {
        if target == 0 || bytes.len() == 0 {
            return Err(WatchdogError::InvalidParameter);
        }
        let expected = copy_range(bytes, 0, bytes.len());
        assert(bytes@.subrange(0, bytes@.len() as int) =~= bytes@);
        let guard = self.insert_region(target, expected);
        assert(self.regions@.drop_last() =~= old(self).regions@);
        Ok(guard)
    }

    /// Guards the region at `target`, which should hold `expected`, whatever it
    /// holds now.
    pub fn guard_bytes(&mut self, target: u64, expected: &[u8]) -> (guard: Result<
        GuardId,
        WatchdogError,
    >)
        ensures
            guarded_after(*old(self), *final(self), target, expected@, guard),
            old(self).wf() && old(self).next_id < u64::MAX ==> final(self).wf(),
    {
        if target == 0 || expected.len() == 0 {
            return Err(WatchdogError::InvalidParameter);
        }
        let image = copy_range(expected, 0, expected.len());
        assert(expected@.subrange(0, expected@.len() as int) =~= expected@);
        let guard = self.insert_region(target, image);
        assert(self.regions@.drop_last() =~= old(self).regions@);
        Ok(guard)
    }

    /// Adds a region.
    fn insert_region(&mut self, target: u64, expected: Vec<u8>) -> (guard: GuardId)
        ensures
            guard.id == old(self).next_id,
            *final(self) == (Watchdog {
                regions: final(self).regions,
                next_id: if old(self).next_id == u64::MAX {
                    0
                } else {
                    (old(self).next_id + 1) as u64
                },
                ..*old(self)
            }),
            final(self).regions@ == old(self).regions@.push(
                (GuardedRegion { id: old(self).next_id, target, expected, tampered: false }),
            ),
            old(self).wf() && old(self).next_id < u64::MAX ==> final(self).wf(),
    {
        let id: u64 = self.next_id;
        self.next_id = id.wrapping_add(1);
        self.regions.push(GuardedRegion { id, target, expected, tampered: false });
        GuardId { id }
    }

    /// Stops guarding a region. Returns whether there was such a region.
    pub fn unguard(&mut self, guard: GuardId) -> (found: bool)
        ensures
            *final(self) == (Watchdog { regions: final(self).regions, ..*old(self) }),
            final(self).regions@ == without(
                old(self).regions@,
                guard.id,
                old(self).regions@.len() as int,
            ),
            found <==> exists|i: int|
                0 <= i < old(self).regions@.len() && (#[trigger] old(self).regions@[i]).id
                    == guard.id,
            old(self).wf() ==> final(self).wf(),
    {
        let ghost all = self.regions@;
        let ghost mut seen: int = 0;
        let mut found: bool = false;
        let mut i: usize = 0;
        while i < self.regions.len()
            invariant
                all == old(self).regions@,
                *self == (Watchdog { regions: self.regions, ..*old(self) }),
                0 <= seen <= all.len(),
                self.regions@ == without(all, guard.id, seen) + all.subrange(
                    seen,
                    all.len() as int,
                ),
                i == without(all, guard.id, seen).len(),
                found <==> exists|k: int| 0 <= k < seen && (#[trigger] all[k]).id == guard.id,
            decreases self.regions@.len() - i,
        {
            assert(self.regions@[i as int] == all[seen]);
            if self.regions[i].id == guard.id {
                let _ = self.regions.remove(i);
                found = true;
                assert(all[seen].id == guard.id);
            } else {
                i = i + 1;
            }
            proof {
                seen = seen + 1;
                assert(self.regions@ =~= without(all, guard.id, seen) + all.subrange(
                    seen,
                    all.len() as int,
                ));
            }
        }
        proof {
            assert(seen == all.len());
            assert(self.regions@ =~= without(all, guard.id, all.len() as int));
            lemma_without(all, guard.id, all.len() as int);
            if old(self).wf() {
                assert forall|a: int, b: int| 0 <= a < b < self.regions@.len() implies (
                #[trigger] self.regions@[a]).id != (#[trigger] self.regions@[b]).id by {
                    lemma_without_order(all, guard.id, all.len() as int, a, b);
                }
            }
        }
        found
    }

    /// Returns the number of guarded regions.
    pub fn guarded(&self) -> (count: usize)
        ensures
            count == self.regions@.len(),
    {
        self.regions.len()
    }

    /// Returns how often a region was rewritten.
    pub fn restorations(&self) -> (count: u64)
        ensures
            count == self.restorations,
    {
        self.restorations
    }

    /// Begins a sweep over the guarded regions.
    pub fn sweep(&self) -> (sweep: Sweep)
        ensures
            sweep.mode == self.mode,
            sweep.next == 0,
            sweep.hits@.len() == 0,
    {
        Sweep { mode: self.mode, next: 0, hits: Vec::new() }
    }
}

/// What guarding a region does.
pub open spec fn guarded_after(
    before: Watchdog,
    after: Watchdog,
    target: u64,
    expected: Seq<u8>,
    guard: Result<GuardId, WatchdogError>,
) -> bool {
    if target == 0 || expected.len() == 0 {
        after == before && guard == Err::<GuardId, WatchdogError>(WatchdogError::InvalidParameter)
    } else {
        &&& guard == Ok::<GuardId, WatchdogError>(GuardId { id: before.next_id })
        &&& after.mode == before.mode && after.restorations == before.restorations && after.interval
            == before.interval
        &&& after.next_id == if before.next_id == u64::MAX {
            0
        } else {
            before.next_id + 1
        }
        &&& after.regions@.len() == before.regions@.len() + 1
        &&& after.regions@.drop_last() == before.regions@
        &&& after.regions@.last().id == before.next_id
        &&& after.regions@.last().target == target
        &&& after.regions@.last().expected@ == expected
        &&& !after.regions@.last().tampered
    }
}

/// Regions that are kept have another number, and are among the regions.
proof fn lemma_without(regions: Seq<GuardedRegion>, id: u64, upto: int)
    requires
        0 <= upto <= regions.len(),
    ensures
        without(regions, id, upto).len() <= upto,
        forall|k: int|
            0 <= k < without(regions, id, upto).len() ==> (#[trigger] without(
                regions,
                id,
                upto,
            )[k]).id != id && regions.contains(without(regions, id, upto)[k]),
    decreases upto,
{
    if upto > 0 {
        lemma_without(regions, id, upto - 1);
    }
}

/// Regions that are kept keep their order.
proof fn lemma_without_order(regions: Seq<GuardedRegion>, id: u64, upto: int, a: int, b: int)
    requires
        0 <= upto <= regions.len(),
        0 <= a < b < without(regions, id, upto).len(),
    ensures
        exists|i: int, j: int|
            0 <= i < j < upto && without(regions, id, upto)[a] == #[trigger] regions[i] && without(
                regions,
                id,
                upto,
            )[b] == #[trigger] regions[j],
    decreases upto,
{
    let shorter = without(regions, id, upto - 1);
    if regions[upto - 1].id == id || b < shorter.len() {
        lemma_without_order(regions, id, upto - 1, a, b);
    } else {
        lemma_without_from(regions, id, upto - 1, a);
        let i = choose|i: int| 0 <= i < upto - 1 && shorter[a] == #[trigger] regions[i];
        assert(without(regions, id, upto)[a] == regions[i]);
        assert(without(regions, id, upto)[b] == regions[upto - 1]);
    }
}

/// A region that is kept is one of those that were looked at.
proof fn lemma_without_from(regions: Seq<GuardedRegion>, id: u64, upto: int, a: int)
    requires
        0 <= upto <= regions.len(),
        0 <= a < without(regions, id, upto).len(),
    ensures
        exists|i: int| 0 <= i < upto && without(regions, id, upto)[a] == #[trigger] regions[i],
    decreases upto,
{
    let shorter = without(regions, id, upto - 1);
    if regions[upto - 1].id == id || a < shorter.len() {
        lemma_without_from(regions, id, upto - 1, a);
    }
}

/// The region after a sweep found `found` in it: it is tampered with where that
/// is not what should be there.
pub open spec fn swept(region: GuardedRegion, found: Seq<u8>) -> GuardedRegion {
    GuardedRegion { tampered: found != region.expected@, ..region }
}

/// Whether a sweep that found `found` in a region reports it: the region was
/// intact at the last sweep and is not any more.
pub open spec fn reports(region: GuardedRegion, found: Seq<u8>) -> bool {
    !region.tampered && found != region.expected@
}

impl Sweep {
    /// Whether the sweep goes over the regions of `watchdog`.
    pub open spec fn wf(self, watchdog: Watchdog) -> bool {
        self.next <= watchdog.regions@.len()
    }

    /// Whether the sweep is done with one region more than `before`.
    pub open spec fn advanced(
        self,
        before: Sweep,
        was: Watchdog,
        watchdog: Watchdog,
        found: Seq<u8>,
        restored: bool,
    ) -> bool {
        let region = was.regions@[before.next as int];
        &&& self.mode == before.mode
        &&& self.next == before.next + 1
        &&& watchdog.regions@ == was.regions@.update(before.next as int, swept(region, found))
        &&& if reports(region, found) {
            &&& self.hits@.len() == before.hits@.len() + 1
            &&& self.hits@.drop_last() == before.hits@
            &&& self.hits@.last().id == region.id
            &&& self.hits@.last().target == region.target
            &&& self.hits@.last().expected@ == region.expected@
            &&& self.hits@.last().found@ == found
            &&& self.hits@.last().restored == restored
        } else {
            self.hits@ == before.hits@
        }
    }

    /// Returns the address and the length of the region that is read next, `None`
    /// at the end of the sweep.
    pub fn region(&self, watchdog: &Watchdog) -> (place: Option<(u64, usize)>)
        requires
            self.wf(*watchdog),
        ensures
            match place {
                Some((target, len)) => {
                    &&& self.next < watchdog.regions@.len()
                    &&& target == watchdog.regions@[self.next as int].target
                    &&& len == watchdog.regions@[self.next as int].expected@.len()
                },
                None => self.next == watchdog.regions@.len(),
            },
    {
        if self.next < watchdog.regions.len() {
            let region = &watchdog.regions[self.next];
            Some((region.target, region.expected.len()))
        } else {
            None
        }
    }

    /// Takes what the region that is looked at holds. Bytes that differ from what
    /// should be there are to be rewritten in the mode that restores; otherwise
    /// the sweep goes on to the next region.
    pub fn examine(&mut self, watchdog: &mut Watchdog, found: &[u8]) -> (step: SweepStep)
        requires
            old(self).wf(*old(watchdog)),
            old(self).next < old(watchdog).regions@.len(),
        ensures
            final(self).wf(*final(watchdog)),
            ({
                let region = old(watchdog).regions@[old(self).next as int];
                match step {
                    SweepStep::Rewrite(write) => {
                        &&& old(self).mode == WatchMode::Restore && found@ != region.expected@
                        &&& write.address == region.target
                        &&& write.bytes@ == region.expected@
                        &&& *final(self) == *old(self)
                        &&& *final(watchdog) == *old(watchdog)
                    },
                    SweepStep::Continue => {
                        &&& old(self).mode == WatchMode::DetectOnly || found@ == region.expected@
                        &&& final(self).advanced(
                            *old(self),
                            *old(watchdog),
                            *final(watchdog),
                            found@,
                            false,
                        )
                        &&& *final(watchdog) == (Watchdog {
                            regions: final(watchdog).regions,
                            ..*old(watchdog)
                        })
                    },
                }
            }),
    {
        let at: usize = self.next;
        let intact: bool = same_bytes(watchdog.regions[at].expected.as_slice(), found);
        if !intact && self.mode == WatchMode::Restore {
            let region = &watchdog.regions[at];
            let bytes = copy_range(region.expected.as_slice(), 0, region.expected.len());
            assert(region.expected@.subrange(0, region.expected@.len() as int)
                =~= region.expected@);
            return SweepStep::Rewrite(CodeWrite { address: region.target, bytes });
        }
        self.conclude(watchdog, found, intact, false);
        SweepStep::Continue
    }

    /// Takes whether the region that is looked at, which held `found`, could be
    /// rewritten.
    pub fn rewritten(&mut self, watchdog: &mut Watchdog, found: &[u8], restored: bool)
        requires
            old(self).wf(*old(watchdog)),
            old(self).next < old(watchdog).regions@.len(),
            found@ != old(watchdog).regions@[old(self).next as int].expected@,
        ensures
            final(self).wf(*final(watchdog)),
            final(self).advanced(
                *old(self),
                *old(watchdog),
                *final(watchdog),
                found@,
                restored,
            ),
            *final(watchdog) == (Watchdog {
                regions: final(watchdog).regions,
                restorations: if !restored {
                    old(watchdog).restorations
                } else if old(watchdog).restorations == u64::MAX {
                    0
                } else {
                    (old(watchdog).restorations + 1) as u64
                },
                ..*old(watchdog)
            }),
    {
        if restored {
            watchdog.restorations = watchdog.restorations.wrapping_add(1);
        }
        self.conclude(watchdog, found, false, restored);
    }

    /// Records what was found in a region, and goes on to the next.
    fn conclude(&mut self, watchdog: &mut Watchdog, found: &[u8], intact: bool, restored: bool)
        requires
            old(self).wf(*old(watchdog)),
            old(self).next < old(watchdog).regions@.len(),
            intact <==> found@ == old(watchdog).regions@[old(self).next as int].expected@,
        ensures
            final(self).wf(*final(watchdog)),
            final(self).advanced(
                *old(self),
                *old(watchdog),
                *final(watchdog),
                found@,
                restored,
            ),
            *final(watchdog) == (Watchdog {
                regions: final(watchdog).regions,
                ..*old(watchdog)
            }),
    {
        let count: usize = watchdog.regions.len();
        assert(self.next < count);
        let at: usize = self.next;
        let mut region = watchdog.regions.remove(at);
        if !intact && !region.tampered {
            let expected = copy_range(region.expected.as_slice(), 0, region.expected.len());
            assert(region.expected@.subrange(0, region.expected@.len() as int)
                =~= region.expected@);
            let copy = copy_range(found, 0, found.len());
            assert(found@.subrange(0, found@.len() as int) =~= found@);
            self.hits.push(
                TamperHit { id: region.id, target: region.target, expected, found: copy, restored },
            );
            assert(self.hits@.drop_last() =~= old(self).hits@);
        }
        region.tampered = !intact;
        watchdog.regions.insert(at, region);
        assert(watchdog.regions@ =~= old(watchdog).regions@.update(
            at as int,
            swept(old(watchdog).regions@[at as int], found@),
        ));
        self.next = at + 1;
    }
}

/// A region through a series of sweeps: what each of the first `upto` sweeps found
/// is given.
pub open spec fn swept_through(region: GuardedRegion, found: Seq<Seq<u8>>, upto: int) ->
    GuardedRegion
    decreases upto,
{
    if upto <= 0 {
        region
    } else {
        swept(swept_through(region, found, upto - 1), found[upto - 1])
    }
}

/// A region that was intact is reported once per episode: a sweep reports it if
/// and only if it finds other bytes than it should and the sweep before found
/// none, and no other sweep does, however long the bytes stay different.
pub proof fn lemma_one_report_per_episode(
    region: GuardedRegion,
    found: Seq<Seq<u8>>,
    sweep: int,
)
    requires
        !region.tampered,
        0 <= sweep < found.len(),
    ensures
        reports(swept_through(region, found, sweep), found[sweep]) <==> found[sweep]
            != region.expected@ && (sweep == 0 || found[sweep - 1] == region.expected@),
{
    lemma_swept_keeps(region, found, sweep);
}

/// Sweeps change nothing of a region but whether it is tampered with.
proof fn lemma_swept_keeps(region: GuardedRegion, found: Seq<Seq<u8>>, upto: int)
    requires
        0 <= upto <= found.len(),
    ensures
        swept_through(region, found, upto) == (GuardedRegion {
            tampered: if upto == 0 {
                region.tampered
            } else {
                found[upto - 1] != region.expected@
            },
            ..region
        }),
    decreases upto,
{
    if upto > 0 {
        lemma_swept_keeps(region, found, upto - 1);
    }
}

/// Rewriting a region puts back exactly what should be there and touches no byte
/// beside it.
pub proof fn lemma_rewrite_restores(memory: Map<int, u8>, region: GuardedRegion)
    ensures
        holds(
            written(memory, region.target as int, region.expected@),
            region.target as int,
            region.expected@,
        ),
        forall|a: int|
            memory.dom().contains(a) && !(region.target <= a < region.target
                + region.expected@.len()) ==> #[trigger] written(
                memory,
                region.target as int,
                region.expected@,
            )[a] == memory[a],
{
}

/// A region that is guarded and then not guarded any more leaves the regions as
/// they were.
pub proof fn lemma_guard_then_unguard(
    before: Watchdog,
    after: Watchdog,
    target: u64,
    expected: Seq<u8>,
    guard: GuardId,
)
    requires
        before.wf(),
        guarded_after(before, after, target, expected, Ok(guard)),
    ensures
        without(after.regions@, guard.id, after.regions@.len() as int) == before.regions@,
{
    let len = before.regions@.len() as int;
    assert forall|i: int| 0 <= i < len implies after.regions@[i] == before.regions@[i] by {
        assert(after.regions@.drop_last()[i] == after.regions@[i]);
    }
    lemma_without_none(before.regions@, after.regions@, guard.id, len);
    assert(before.regions@.subrange(0, len) =~= before.regions@);
}

/// Where no region has the number, all regions are kept.
proof fn lemma_without_none(
    before: Seq<GuardedRegion>,
    after: Seq<GuardedRegion>,
    id: u64,
    upto: int,
)
    requires
        0 <= upto <= before.len(),
        upto <= after.len(),
        forall|i: int| 0 <= i < upto ==> after[i] == before[i] && (#[trigger] before[i]).id != id,
    ensures
        without(after, id, upto) == before.subrange(0, upto),
    decreases upto,
{
    if upto > 0 {
        lemma_without_none(before, after, id, upto - 1);
        assert(before.subrange(0, upto - 1).push(before[upto - 1]) =~= before.subrange(0, upto));
    } else {
        assert(before.subrange(0, 0) =~= Seq::<GuardedRegion>::empty());
    }
}

} // verus!
