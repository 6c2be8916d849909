//! Control Flow Guard: which processes check indirect calls, and how code is
//! announced to them as a call target.
use vstd::prelude::*;

verus! {

/// The flag of an announced address that makes it a valid call target.
pub const CFG_CALL_TARGET_VALID: u64 = 1;

/// The bit of the mitigation policy that says that indirect calls are checked.
pub const ENABLE_CONTROL_FLOW_GUARD: u32 = 1;

/// The size of a page.
pub const PAGE_SIZE: u64 = 0x1000;

/// Whether call targets are announced: what was set by hand, and what was
/// detected.
#[derive(Clone, Copy, Debug, PartialEq, Eq, Structural)]
pub struct Enforcement {
    pub forced: Option<bool>,
    pub detected: Option<bool>,
}

/// A page and an offset in it that are announced as a call target.
#[derive(Clone, Copy, Debug, PartialEq, Eq, Structural)]
pub struct CallTarget {
    /// The address of the page.
    pub base: u64,
    /// The size of the announced region.
    pub region_size: u64,
    /// The offset of the target in the page.
    pub offset: u64,
    pub flags: u64,
}

impl Enforcement {
    /// Returns that nothing is set by hand and nothing was detected.
    pub fn new() -> (enforcement: Enforcement)
        ensures
            enforcement.forced is None,
            enforcement.detected is None,
    {
        Enforcement { forced: None, detected: None }
    }

    /// Returns whether the mitigation policy of the process has to be asked for.
    pub fn needs_detection(&self) -> (needs: bool)
        ensures
            needs == (self.forced is None && self.detected is None),
    {
        self.forced.is_none() && self.detected.is_none()
    }
}

/// Forces the announcing of call targets on or off, or, with `None`, leaves it to
/// detection.
pub fn set_enforcement(enforcement: &mut Enforcement, state: Option<bool>)
    ensures
        *final(enforcement) == (Enforcement { forced: state, ..*old(enforcement) }),
{
    enforcement.forced = state;
}

/// Whether a mitigation policy says that indirect calls are checked; `None` where
/// the policy could not be asked for.
pub open spec fn checks_calls(policy: Option<u32>) -> bool {
    match policy {
        Some(flags) => flags & ENABLE_CONTROL_FLOW_GUARD != 0,
        None => false,
    }
}

/// Returns whether a mitigation policy says that indirect calls are checked.
pub fn detect_enforced(policy: Option<u32>) -> (enforced: bool)
    ensures
        enforced == checks_calls(policy),
{
    match policy {
        Some(flags) => flags & ENABLE_CONTROL_FLOW_GUARD != 0,
        None => false,
    }
}

/// Whether call targets are announced.
pub open spec fn enforced(enforcement: Enforcement, policy: Option<u32>) -> bool {
    match enforcement.forced {
        Some(state) => state,
        None => match enforcement.detected {
            Some(state) => state,
            None => checks_calls(policy),
        },
    }
}

/// The state after it was asked whether call targets are announced: what the
/// policy says is remembered the first time it is needed.
pub open spec fn remembered(enforcement: Enforcement, policy: Option<u32>) -> Enforcement {
    if enforcement.forced is None && enforcement.detected is None {
        Enforcement { detected: Some(checks_calls(policy)), ..enforcement }
    } else {
        enforcement
    }
}

/// Returns whether call targets are announced. `policy` is the mitigation policy
/// of the process, which counts only where nothing was set by hand and nothing
/// was detected before.
pub fn is_enforced(enforcement: &mut Enforcement, policy: Option<u32>) -> (state: bool)
    ensures
        state == enforced(*old(enforcement), policy),
        *final(enforcement) == remembered(*old(enforcement), policy),
{
    match enforcement.forced {
        Some(state) => state,
        None => match enforcement.detected {
            Some(state) => state,
            None => {
                let state: bool = detect_enforced(policy);
                enforcement.detected = Some(state);
                state
            },
        },
    }
}

/// Returns what is announced to make `entry` a valid call target, `None` where
/// nothing is: for a null entry, and where call targets are not announced.
pub fn register_valid_target(enforcement: &mut Enforcement, policy: Option<u32>, entry: u64) -> (
target: Option<CallTarget>)
    ensures
        match target {
            Some(call) => entry != 0 && enforced(*old(enforcement), policy) && call == (CallTarget {
                base: (entry - entry % PAGE_SIZE) as u64,
                region_size: PAGE_SIZE,
                offset: entry % PAGE_SIZE,
                flags: CFG_CALL_TARGET_VALID,
            }),
            None => entry == 0 || !enforced(*old(enforcement), policy),
        },
        *final(enforcement) == if entry == 0 {
            *old(enforcement)
        } else {
            remembered(*old(enforcement), policy)
        },
{
    if entry == 0 {
        return None;
    }
    if !is_enforced(enforcement, policy) {
        return None;
    }
    Some(mark_valid(entry))
}

/// Returns the page of an address and the offset in it.
pub fn mark_valid(address: u64) -> (target: CallTarget)
    ensures
        target == (CallTarget {
            base: (address - address % PAGE_SIZE) as u64,
            region_size: PAGE_SIZE,
            offset: address % PAGE_SIZE,
            flags: CFG_CALL_TARGET_VALID,
        }),
{
    let offset: u64 = address % PAGE_SIZE;
    CallTarget {
        base: address - offset,
        region_size: PAGE_SIZE,
        offset,
        flags: CFG_CALL_TARGET_VALID,
    }
}

/// An announced address is the entry: the page is aligned, the offset lies in it,
/// and together they are the entry.
pub proof fn lemma_target_is_entry(entry: u64)
    ensures
        (entry - entry % PAGE_SIZE) % PAGE_SIZE as int == 0,
        entry % PAGE_SIZE < PAGE_SIZE,
        (entry - entry % PAGE_SIZE) + entry % PAGE_SIZE == entry,
{
}

/// What was set by hand decides, whatever the policy is and whatever was detected
/// before; and what was detected stays, whatever the policy becomes.
pub proof fn lemma_override_decides(
    enforcement: Enforcement,
    state: bool,
    first: Option<u32>,
    second: Option<u32>,
)
    ensures
        enforced(Enforcement { forced: Some(state), ..enforcement }, first) == state,
        enforced(remembered(enforcement, first), second) == enforced(enforcement, first),
{
}

} // verus!
