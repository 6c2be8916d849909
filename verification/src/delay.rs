//! Hooks on functions of modules that are not loaded yet.
//!
//! A request names a module and a function. It is installed as a breakpoint hook
//! as soon as the module is there: at once, or after a load. Loads are noticed
//! through one hook on the loader, which is there while there are requests.
use vstd::prelude::*;

use crate::int3::Int3Hook;
use crate::text::ascii_lower_text;
use crate::transaction::Hook;

verus! {

/// `str::to_ascii_lowercase` of std: a copy of the text whose letters `A` to `Z`
/// are made small and whose other characters are unchanged.
pub assume_specification[ str::to_ascii_lowercase ](text: &str) -> (lower: String)
    ensures
        lower@ == ascii_lower_text(text@),
;

/// A request, and its hook once it is installed.
#[derive(Debug)]
pub struct Pending {
    pub id: u64,
    /// The file name of the module, in lower case.
    pub module: String,
    pub func: String,
    pub detour: u64,
    pub hook: Option<Int3Hook>,
}

/// The requests, and the hook on the loader.
#[derive(Debug)]
pub struct DelayManager {
    pub next_id: u64,
    pub pending: Vec<Pending>,
    pub ldr_hook: Option<Hook>,
}

/// Why a request is not registered.
#[derive(Clone, Copy, Debug, PartialEq, Eq, Structural)]
pub enum DelayHookError {
    /// A null detour or an empty name was given.
    InvalidParameter,
    /// The loader could not be hooked.
    LdrHookFailed,
}

impl DelayHookError {
    /// The text of the error.
    pub open spec fn text(self) -> Seq<char> {
        match self {
            DelayHookError::InvalidParameter => "invalid delay-hook parameters"@,
            DelayHookError::LdrHookFailed => "failed to hook ntdll!LdrLoadDll"@,
        }
    }

    /// Returns the text of the error.
    pub fn to_string(&self) -> (text: String)
        ensures
            text@ == self.text(),
    {
        match self {
            DelayHookError::InvalidParameter => "invalid delay-hook parameters".to_owned(),
            DelayHookError::LdrHookFailed => "failed to hook ntdll!LdrLoadDll".to_owned(),
        }
    }
}

/// A registered request.
#[derive(Debug)]
pub struct DelayHook {
    pub id: u64,
}

/// What is to be undone after a request was removed: the hook that it had, and the
/// hook on the loader after the last request.
#[derive(Debug)]
pub struct DelayRemoval {
    pub hook: Option<Int3Hook>,
    pub ldr_hook: Option<Hook>,
}

/// The position of the request with the number `id`, from `at` on.
pub open spec fn position(pending: Seq<Pending>, id: u64, at: int) -> Option<int>
    decreases pending.len() - at,
{
    if at < 0 || at >= pending.len() {
        None
    } else if pending[at].id == id {
        Some(at)
    } else {
        position(pending, id, at + 1)
    }
}

/// A position that was found has the number, and no position before it has.
proof fn lemma_position(pending: Seq<Pending>, id: u64, at: int)
    requires
        0 <= at,
    ensures
        match position(pending, id, at) {
            Some(found) => at <= found < pending.len() && pending[found].id == id && forall|j: int|
                at <= j < found ==> (#[trigger] pending[j]).id != id,
            None => forall|j: int| at <= j < pending.len() ==> (#[trigger] pending[j]).id != id,
        },
    decreases pending.len() - at,
{
    if at < pending.len() && pending[at].id != id {
        lemma_position(pending, id, at + 1);
    }
}

impl DelayManager {
    /// No number is used twice, and the loader is hooked while there are requests.
    pub open spec fn wf(self) -> bool {
        &&& forall|i: int|
            0 <= i < self.pending@.len() ==> (#[trigger] self.pending@[i]).id < self.next_id
        &&& forall|i: int, j: int|
            0 <= i < j < self.pending@.len() ==> (#[trigger] self.pending@[i]).id != (
            #[trigger] self.pending@[j]).id
        &&& self.pending@.len() > 0 ==> self.ldr_hook is Some
    }

    /// Returns a manager without requests.
    pub fn new() -> (manager: DelayManager)
        ensures
            manager.wf(),
            manager.next_id == 1,
            manager.pending@.len() == 0,
            manager.ldr_hook is None,
    {
        DelayManager { next_id: 1, pending: Vec::new(), ldr_hook: None }
    }

    /// Returns the position of the request with the number `id`.
    fn find(&self, id: u64) -> (found: Option<usize>)
        ensures
            match found {
                Some(at) => at < self.pending@.len() && position(self.pending@, id, 0) == Some(
                    at as int,
                ) && self.pending@[at as int].id == id,
                None => position(self.pending@, id, 0) is None,
            },
    {
        let mut i: usize = 0;
        while i < self.pending.len()
            invariant
                i <= self.pending@.len(),
                position(self.pending@, id, i as int) == position(self.pending@, id, 0),
            decreases self.pending@.len() - i,
        {
            if self.pending[i].id == id {
                return Some(i);
            }
            i = i + 1;
        }
        None
    }

    /// Returns the position of the first request from `from` on that is not
    /// installed yet.
    pub fn next_unresolved(&self, from: usize) -> (found: Option<usize>)
        ensures
            match found {
                Some(at) => {
                    &&& from <= at < self.pending@.len()
                    &&& self.pending@[at as int].hook is None
                    &&& forall|j: int|
                        from <= j < at ==> (#[trigger] self.pending@[j]).hook is Some
                },
                None => forall|j: int|
                    from <= j < self.pending@.len() ==> (#[trigger] self.pending@[j]).hook is Some,
            },
    {
        let mut i: usize = from;
        while i < self.pending.len()
            invariant
                from <= i,
                forall|j: int|
                    from <= j < i && j < self.pending@.len() ==> (
                    #[trigger] self.pending@[j]).hook is Some,
            decreases self.pending@.len() - i,
        {
            if self.pending[i].hook.is_none() {
                return Some(i);
            }
            i = i + 1;
        }
        None
    }

    /// Takes the hook of a request whose function was found; `None` where it could
    /// not be installed. The request then stays pending.
    pub fn install_ready_pending(&mut self, at: usize, hook: Option<Int3Hook>)
        requires
            old(self).wf(),
            at < old(self).pending@.len(),
            old(self).pending@[at as int].hook is None,
        ensures
            final(self).wf(),
            *final(self) == (DelayManager { pending: final(self).pending, ..*old(self) }),
            final(self).pending@ == old(self).pending@.update(
                at as int,
                (Pending { hook, ..old(self).pending@[at as int] }),
            ),
    {
        let mut request = self.pending.remove(at);
        request.hook = hook;
        self.pending.insert(at, request);
        assert(self.pending@ =~= old(self).pending@.update(
            at as int,
            (Pending { hook, ..old(self).pending@[at as int] }),
        ));
    }
}

impl DelayHook {
    /// Checks a request, and returns whether the loader has to be hooked first.
    pub fn needs_ldr_hook(manager: &DelayManager, module: &str, func: &str, detour: u64) -> (needs:
        Result<bool, DelayHookError>)
        ensures
            needs == (if detour == 0 || module@.len() == 0 || func@.len() == 0 {
                Err::<bool, DelayHookError>(DelayHookError::InvalidParameter)
            } else {
                Ok::<bool, DelayHookError>(manager.ldr_hook is None)
            }),
    {
        if detour == 0 || module.unicode_len() == 0 || func.unicode_len() == 0 {
            return Err(DelayHookError::InvalidParameter);
        }
        Ok(manager.ldr_hook.is_none())
    }

    /// Registers a request. `ldr_hook` is the hook on the loader where it had to
    /// be hooked. The request is the last one, and is installed like any other
    /// whose module is there.
    pub fn register(
        manager: &mut DelayManager,
        module: &str,
        func: &str,
        detour: u64,
        ldr_hook: Option<Hook>,
    ) -> (request: Result<DelayHook, DelayHookError>)
        requires
            old(manager).wf(),
            old(manager).next_id < u64::MAX,
        ensures
            final(manager).wf(),
            match request {
                Err(error) => {
                    &&& *final(manager) == *old(manager)
                    &&& if detour == 0 || module@.len() == 0 || func@.len() == 0 {
                        error == DelayHookError::InvalidParameter
                    } else {
                        &&& error == DelayHookError::LdrHookFailed
                        &&& old(manager).ldr_hook is None && ldr_hook is None
                    }
                },
                Ok(handle) => {
                    &&& detour != 0 && module@.len() > 0 && func@.len() > 0
                    &&& handle.id == old(manager).next_id
                    &&& final(manager).next_id == old(manager).next_id + 1
                    &&& final(manager).ldr_hook == if old(manager).ldr_hook is Some {
                        old(manager).ldr_hook
                    } else {
                        ldr_hook
                    }
                    &&& final(manager).ldr_hook is Some
                    &&& final(manager).pending@.len() == old(manager).pending@.len() + 1
                    &&& final(manager).pending@.drop_last() == old(manager).pending@
                    &&& final(manager).pending@.last().id == handle.id
                    &&& final(manager).pending@.last().module@ == ascii_lower_text(module@)
                    &&& final(manager).pending@.last().func@ == func@
                    &&& final(manager).pending@.last().detour == detour
                    &&& final(manager).pending@.last().hook is None
                },
            },
    {
        if detour == 0 || module.unicode_len() == 0 || func.unicode_len() == 0 {
            return Err(DelayHookError::InvalidParameter);
        }
        if manager.ldr_hook.is_none() {
            if ldr_hook.is_none() {
                return Err(DelayHookError::LdrHookFailed);
            }
            manager.ldr_hook = ldr_hook;
        }
        let id: u64 = manager.next_id;
        manager.next_id = id + 1;
        manager.pending.push(
            Pending {
                id,
                module: module.to_ascii_lowercase(),
                func: func.to_owned(),
                detour,
                hook: None,
            },
        );
        assert(manager.pending@.drop_last() =~= old(manager).pending@);
        Ok(DelayHook { id })
    }

    /// Returns whether the request is installed.
    pub fn is_active(&self, manager: &DelayManager) -> (active: bool)
        ensures
            active == (match position(manager.pending@, self.id, 0) {
                Some(at) => manager.pending@[at].hook is Some,
                None => false,
            }),
    {
        match manager.find(self.id) {
            Some(at) => manager.pending[at].hook.is_some(),
            None => false,
        }
    }

    /// Removes the request and returns what is to be undone. A request that was
    /// removed already leaves nothing to undo but a hook on the loader that no
    /// request needs.
    pub fn remove(&mut self, manager: &mut DelayManager) -> (removal: DelayRemoval)
        requires
            old(manager).wf(),
        ensures
            final(manager).wf(),
            *final(self) == *old(self),
            removed(*old(manager), *final(manager), old(self).id, removal),
    {
        let mut hook: Option<Int3Hook> = None;
        match manager.find(self.id) {
            Some(at) => {
                let request = manager.pending.remove(at);
                hook = request.hook;
                proof {
                    assert forall|i: int| 0 <= i < manager.pending@.len() implies (
                    #[trigger] manager.pending@[i]).id < manager.next_id by {}
                }
            },
            None => {},
        }
        let mut ldr_hook: Option<Hook> = None;
        if manager.pending.len() == 0 {
            ldr_hook = manager.ldr_hook.take();
        }
        DelayRemoval { hook, ldr_hook }
    }

    /// Removes the request and returns what is to be undone.
    pub fn unhook(self, manager: &mut DelayManager) -> (removal: Result<
        DelayRemoval,
        DelayHookError,
    >)
        requires
            old(manager).wf(),
        ensures
            final(manager).wf(),
            removal matches Ok(done) && removed(*old(manager), *final(manager), self.id, done),
    {
        let mut request = self;
        Ok(request.remove(manager))
    }
}

/// What the removal of a request does.
pub open spec fn removed(
    before: DelayManager,
    after: DelayManager,
    id: u64,
    removal: DelayRemoval,
) -> bool {
    &&& after.next_id == before.next_id
    &&& match position(before.pending@, id, 0) {
        Some(at) => after.pending@ == before.pending@.remove(at) && removal.hook
            == before.pending@[at].hook,
        None => after.pending@ == before.pending@ && removal.hook is None,
    }
    &&& if after.pending@.len() == 0 {
        after.ldr_hook is None && removal.ldr_hook == before.ldr_hook
    } else {
        after.ldr_hook == before.ldr_hook && removal.ldr_hook is None
    }
}

/// A request that is registered and removed leaves the other requests as they
/// were, and after it none is active under its number.
pub proof fn lemma_register_then_remove(
    before: Seq<Pending>,
    after: Seq<Pending>,
    id: u64,
)
    requires
        after.len() == before.len() + 1,
        after.drop_last() == before,
        after.last().id == id,
        forall|i: int| 0 <= i < before.len() ==> (#[trigger] before[i]).id != id,
    ensures
        position(after, id, 0) == Some(before.len() as int),
        after.remove(before.len() as int) == before,
        position(before, id, 0) is None,
{
    assert forall|i: int| 0 <= i < before.len() implies after[i] == before[i] by {
        assert(after.drop_last()[i] == after[i]);
    }
    lemma_position(after, id, 0);
    lemma_position(before, id, 0);
    assert(after[after.len() - 1].id == id);
    match position(after, id, 0) {
        Some(at) => {
            assert(at == before.len()) by {
                if at < before.len() {
                    assert(before[at].id != id);
                }
            }
        },
        None => {},
    }
    assert(after.remove(before.len() as int) =~= before);
}

} // verus!
