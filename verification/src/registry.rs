//! A store of named hooks.
//!
//! A hook belongs to whoever installed it. Where that is inconvenient, it is
//! parked here under a name, and toggled and removed by that name.
use vstd::prelude::*;

use crate::arch::Arch;
use crate::hook::{
    gateways_after, hook_edit, removable, removal_error, retired, switch_result, switched,
    writable, HookOutcome, HookWrite,
};
use crate::text::same_characters;
use crate::transaction::{GatewayRegistry, Hook};
use crate::DetourError;

verus! {

/// A hook under its name.
#[derive(Debug)]
pub struct NamedHook {
    pub name: String,
    pub hook: Hook,
}

/// The named hooks.
#[derive(Debug)]
pub struct Registry {
    pub entries: Vec<NamedHook>,
}

/// The position of the entry under `name`, from `at` on.
pub open spec fn position(entries: Seq<NamedHook>, name: Seq<char>, at: int) -> Option<int>
    decreases entries.len() - at,
{
    if at < 0 || at >= entries.len() {
        None
    } else if entries[at].name@ == name {
        Some(at)
    } else {
        position(entries, name, at + 1)
    }
}

/// A position that was found holds the name, and no entry before it does.
proof fn lemma_position(entries: Seq<NamedHook>, name: Seq<char>, at: int)
    requires
        0 <= at,
    ensures
        match position(entries, name, at) {
            Some(found) => at <= found < entries.len() && entries[found].name@ == name && forall|
                j: int,
            |
                at <= j < found ==> (#[trigger] entries[j]).name@ != name,
            None => forall|j: int| at <= j < entries.len() ==> (#[trigger] entries[j]).name@ != name,
        },
    decreases entries.len() - at,
{
    if at < entries.len() && entries[at].name@ != name {
        lemma_position(entries, name, at + 1);
    }
}

impl View for Registry {
    type V = Map<Seq<char>, Hook>;

    /// The hooks by their names.
    open spec fn view(&self) -> Map<Seq<char>, Hook> {
        Map::new(
            |name: Seq<char>| position(self.entries@, name, 0) is Some,
            |name: Seq<char>| self.entries@[position(self.entries@, name, 0)->0].hook,
        )
    }
}

impl Registry {
    /// No name is used twice.
    pub open spec fn wf(self) -> bool {
        forall|i: int, j: int|
            0 <= i < j < self.entries@.len() ==> (#[trigger] self.entries@[i]).name@ != (
            #[trigger] self.entries@[j]).name@
    }

    /// Returns a registry without hooks.
    pub fn new() -> (registry: Registry)
        ensures
            registry.wf(),
            registry@ == Map::<Seq<char>, Hook>::empty(),
    {
        let registry = Registry { entries: Vec::new() };
        assert(registry@ =~= Map::<Seq<char>, Hook>::empty());
        registry
    }
}

/// The only entry under a name is the one that is looked up.
proof fn lemma_entry(registry: Registry, at: int)
    requires
        registry.wf(),
        0 <= at < registry.entries@.len(),
    ensures
        registry@.dom().contains(registry.entries@[at].name@),
        registry@[registry.entries@[at].name@] == registry.entries@[at].hook,
{
    lemma_position(registry.entries@, registry.entries@[at].name@, 0);
}

/// Returns the position of the entry under `name`.
fn find(registry: &Registry, name: &str) -> (found: Option<usize>)
    ensures
        match found {
            Some(at) => at < registry.entries@.len() && position(registry.entries@, name@, 0)
                == Some(at as int) && registry.entries@[at as int].name@ == name@,
            None => position(registry.entries@, name@, 0) is None,
        },
{
    let mut i: usize = 0;
    while i < registry.entries.len()
        invariant
            i <= registry.entries@.len(),
            position(registry.entries@, name@, i as int) == position(registry.entries@, name@, 0),
        decreases registry.entries@.len() - i,
    {
        if same_characters(registry.entries[i].name.as_str(), name) {
            return Some(i);
        }
        i = i + 1;
    }
    None
}

/// Stores a hook under a name, and returns the hook that was stored under it
/// before. That hook is not removed from its target.
pub fn register(registry: &mut Registry, name: String, hook: Hook) -> (previous: Option<Hook>)
    requires
        old(registry).wf(),
    ensures
        final(registry).wf(),
        final(registry)@ == old(registry)@.insert(name@, hook),
        previous == (if old(registry)@.dom().contains(name@) {
            Some(old(registry)@[name@])
        } else {
            None
        }),
{
    let previous = take(registry, name.as_str());
    let ghost before = *registry;
    registry.entries.push(NamedHook { name, hook });
    proof {
        assert(!before@.dom().contains(name@));
        assert(registry.entries@.drop_last() =~= before.entries@);
        lemma_push(before, *registry);
        assert(registry@ =~= old(registry)@.insert(name@, hook));
    }
    previous
}

/// Appending an entry under a new name stores its hook.
proof fn lemma_push(before: Registry, after: Registry)
    requires
        before.wf(),
        after.entries@.len() == before.entries@.len() + 1,
        after.entries@.drop_last() == before.entries@,
        position(before.entries@, after.entries@.last().name@, 0) is None,
    ensures
        after.wf(),
        after@ == before@.insert(after.entries@.last().name@, after.entries@.last().hook),
{
    let last = after.entries@.last();
    assert forall|i: int| 0 <= i < before.entries@.len() implies after.entries@[i]
        == before.entries@[i] by {
        assert(after.entries@.drop_last()[i] == after.entries@[i]);
    }
    lemma_position(before.entries@, last.name@, 0);
    assert forall|name: Seq<char>| #[trigger]
        after@.dom().contains(name) == before@.insert(last.name@, last.hook).dom().contains(name) && (
    after@.dom().contains(name) ==> after@[name] == before@.insert(
        last.name@,
        last.hook,
    )[name]) by {
        lemma_position(before.entries@, name, 0);
        lemma_position(after.entries@, name, 0);
        if position(before.entries@, name, 0) is Some {
            let found = position(before.entries@, name, 0)->0;
            assert(after.entries@[found].name@ == name);
            let other = position(after.entries@, name, 0)->0;
            assert(other == found);
        }
        if name == last.name@ {
            assert(after.entries@[after.entries@.len() - 1].name@ == name);
        }
    }
    assert(after@ =~= before@.insert(last.name@, last.hook));
}

/// Takes the hook under `name` out of the registry. The hook is not removed from
/// its target.
pub fn take(registry: &mut Registry, name: &str) -> (hook: Option<Hook>)
    requires
        old(registry).wf(),
    ensures
        final(registry).wf(),
        final(registry)@ == old(registry)@.remove(name@),
        hook == (if old(registry)@.dom().contains(name@) {
            Some(old(registry)@[name@])
        } else {
            None
        }),
{
    match find(registry, name) {
        Some(at) => {
            let ghost before = *registry;
            let entry = registry.entries.remove(at);
            proof {
                lemma_remove(before, *registry, at as int);
            }
            Some(entry.hook)
        },
        None => {
            assert(registry@ =~= old(registry)@.remove(name@));
            None
        },
    }
}

/// Removing an entry removes its name.
proof fn lemma_remove(before: Registry, after: Registry, at: int)
    requires
        before.wf(),
        0 <= at < before.entries@.len(),
        after.entries@ == before.entries@.remove(at),
    ensures
        after.wf(),
        after@ == before@.remove(before.entries@[at].name@),
{
    let gone = before.entries@[at].name@;
    assert forall|i: int| 0 <= i < after.entries@.len() implies after.entries@[i]
        == before.entries@[if i < at {
        i
    } else {
        i + 1
    }] by {}
    assert(after.wf());
    assert forall|name: Seq<char>| #[trigger]
        after@.dom().contains(name) == before@.remove(gone).dom().contains(name) && (
    after@.dom().contains(name) ==> after@[name] == before@.remove(gone)[name]) by {
        lemma_position(before.entries@, name, 0);
        lemma_position(after.entries@, name, 0);
        if position(after.entries@, name, 0) is Some {
            let i = position(after.entries@, name, 0)->0;
            let j = if i < at {
                i
            } else {
                i + 1
            };
            assert(before.entries@[j].name@ == name);
            lemma_entry(before, j);
        }
        if position(before.entries@, name, 0) is Some && name != gone {
            let j = position(before.entries@, name, 0)->0;
            let i = if j < at {
                j
            } else {
                j - 1
            };
            assert(after.entries@[i].name@ == name);
        }
    }
    assert(after@ =~= before@.remove(gone));
}

/// Replacing the hook of an entry replaces the hook under its name.
proof fn lemma_replace(before: Registry, after: Registry, at: int)
    requires
        before.wf(),
        0 <= at < before.entries@.len(),
        after.entries@.len() == before.entries@.len(),
        forall|i: int|
            0 <= i < before.entries@.len() ==> (#[trigger] after.entries@[i]).name@
                == before.entries@[i].name@ && (i != at ==> after.entries@[i].hook
                == before.entries@[i].hook),
    ensures
        after.wf(),
        after@ == before@.insert(before.entries@[at].name@, after.entries@[at].hook),
{
    let changed = before.entries@[at].name@;
    assert forall|name: Seq<char>| #[trigger]
        after@.dom().contains(name) == before@.insert(
            changed,
            after.entries@[at].hook,
        ).dom().contains(name) && (after@.dom().contains(name) ==> after@[name] == before@.insert(
        changed,
        after.entries@[at].hook,
    )[name]) by {
        lemma_position(before.entries@, name, 0);
        lemma_position(after.entries@, name, 0);
        if position(after.entries@, name, 0) is Some {
            let i = position(after.entries@, name, 0)->0;
            assert(before.entries@[i].name@ == name);
        }
        if position(before.entries@, name, 0) is Some {
            let i = position(before.entries@, name, 0)->0;
            assert(after.entries@[i].name@ == name);
        }
        if name == changed {
            assert(after.entries@[at].name@ == name);
        }
    }
    assert(after@ =~= before@.insert(changed, after.entries@[at].hook));
}

/// Returns the write that enables or disables the hook under `name`, `None` where
/// there is no such hook, where it is enabled or disabled already, and where it
/// has nothing to write to.
pub fn toggle_write(registry: &Registry, arch: Arch, name: &str, enable: bool) -> (write: Option<
    HookWrite,
>)
    ensures
        match write {
            Some(begun) => registry@.dom().contains(name@) && ({
                let hook = registry@[name@];
                &&& hook.spec_enabled() != enable && writable(hook, enable)
                &&& begun is Code <==> hook is Inline
                &&& begun.begins()
                &&& begun.address() == hook_edit(arch, hook).address
                &&& begun.bytes() == if enable {
                    hook_edit(arch, hook).new
                } else {
                    hook_edit(arch, hook).old
                }
            }),
            None => registry@.dom().contains(name@) ==> registry@[name@].spec_enabled() == enable
                || !writable(registry@[name@], enable),
        },
{
    match find(registry, name) {
        Some(at) => registry.entries[at].hook.toggle_write(arch, enable),
        None => None,
    }
}

/// Completes the enabling of the hook under `name`, whose write came to
/// `outcome`. Returns whether there is such a hook.
pub fn enable(registry: &mut Registry, name: &str, outcome: HookOutcome) -> (result: Result<
    bool,
    DetourError,
>)
    requires
        old(registry).wf(),
        old(registry)@.dom().contains(name@) ==> outcome.fits(old(registry)@[name@]),
    ensures
        final(registry).wf(),
        toggled(old(registry)@, final(registry)@, name@, true, outcome, result),
{
    switch(registry, name, true, outcome)
}

/// Completes the disabling of the hook under `name`, whose write came to
/// `outcome`. The hook stays registered. Returns whether there is such a hook.
pub fn disable(registry: &mut Registry, name: &str, outcome: HookOutcome) -> (result: Result<
    bool,
    DetourError,
>)
    requires
        old(registry).wf(),
        old(registry)@.dom().contains(name@) ==> outcome.fits(old(registry)@[name@]),
    ensures
        final(registry).wf(),
        toggled(old(registry)@, final(registry)@, name@, false, outcome, result),
{
    switch(registry, name, false, outcome)
}

/// What switching the hook under `name` does to the named hooks, and what it
/// returns.
pub open spec fn toggled(
    before: Map<Seq<char>, Hook>,
    after: Map<Seq<char>, Hook>,
    name: Seq<char>,
    enable: bool,
    outcome: HookOutcome,
    result: Result<bool, DetourError>,
) -> bool {
    if !before.dom().contains(name) {
        after == before && result == Ok::<bool, DetourError>(false)
    } else if before[name].spec_enabled() == enable {
        after == before && result == Ok::<bool, DetourError>(true)
    } else {
        match switch_result(before[name], enable, outcome) {
            Ok(_) => after == before.insert(name, switched(before[name], enable)) && result == Ok::<
                bool,
                DetourError,
            >(true),
            Err(error) => after == before && result == Err::<bool, DetourError>(error),
        }
    }
}

/// Completes the switching of the hook under `name`.
fn switch(registry: &mut Registry, name: &str, enable: bool, outcome: HookOutcome) -> (result:
    Result<bool, DetourError>)
    requires
        old(registry).wf(),
        old(registry)@.dom().contains(name@) ==> outcome.fits(old(registry)@[name@]),
    ensures
        final(registry).wf(),
        toggled(old(registry)@, final(registry)@, name@, enable, outcome, result),
{
    match find(registry, name) {
        Some(at) => {
            let ghost before = *registry;
            let mut entry = registry.entries.remove(at);
            let result = if enable {
                entry.hook.enable(outcome)
            } else {
                entry.hook.disable(outcome)
            };
            registry.entries.insert(at, entry);
            proof {
                lemma_replace(before, *registry, at as int);
                assert(before@.insert(name@, before@[name@]) =~= before@);
            }
            match result {
                Ok(()) => Ok(true),
                Err(error) => Err(error),
            }
        },
        None => Ok(false),
    }
}

/// Returns whether the hook under `name` is enabled, `None` where there is no
/// such hook.
pub fn is_enabled(registry: &Registry, name: &str) -> (enabled: Option<bool>)
    ensures
        enabled == (if registry@.dom().contains(name@) {
            Some(registry@[name@].spec_enabled())
        } else {
            None
        }),
{
    match find(registry, name) {
        Some(at) => Some(registry.entries[at].hook.is_enabled()),
        None => None,
    }
}

/// Begins the write that removes the hook under `name` from its target, `None`
/// where there is no such hook.
pub fn perform_unhook(registry: &Registry, arch: Arch, mapped: &[u8], name: &str) -> (write: Option<
    Result<HookWrite, DetourError>,
>)
    ensures
        match write {
            Some(begun) => registry@.dom().contains(name@) && match begun {
                Ok(edit) => {
                    &&& edit is Code <==> registry@[name@] is Inline
                    &&& edit.begins()
                    &&& removable(arch, mapped@, registry@[name@]) == Ok::<int, DetourError>(
                        edit.address(),
                    )
                    &&& edit.bytes() == hook_edit(arch, registry@[name@]).old
                },
                Err(error) => removable(arch, mapped@, registry@[name@]) == Err::<int, DetourError>(
                    error,
                ),
            },
            None => !registry@.dom().contains(name@),
        },
{
    match find(registry, name) {
        Some(at) => Some(registry.entries[at].hook.perform_unhook(arch, mapped)),
        None => None,
    }
}

/// What the removal of a registered hook came to.
#[derive(Debug)]
pub struct Unhooked {
    /// Whether there was such a hook, or why it is not removed from its target.
    pub result: Result<bool, DetourError>,
    /// The hook, which the registry no longer holds: its code is to be released, or
    /// its removal to be tried again.
    pub hook: Option<Hook>,
    /// The address of a cloned table that is to be released.
    pub clone: Option<u64>,
}

/// Takes the hook under `name` out of the registry after its removal from its
/// target came to `outcome`, or could not be begun.
pub fn unhook(
    registry: &mut Registry,
    gateways: &mut GatewayRegistry,
    name: &str,
    outcome: Result<HookOutcome, DetourError>,
) -> (removal: Unhooked)
    requires
        old(registry).wf(),
        old(registry)@.dom().contains(name@) && outcome is Ok ==> outcome->Ok_0.fits(
            old(registry)@[name@],
        ),
    ensures
        final(registry).wf(),
        final(registry)@ == old(registry)@.remove(name@),
        !old(registry)@.dom().contains(name@) ==> {
            &&& removal.result == Ok::<bool, DetourError>(false)
            &&& removal.hook is None && removal.clone is None
            &&& final(gateways)@ == old(gateways)@
        },
        old(registry)@.dom().contains(name@) ==> {
            let hook = old(registry)@[name@];
            match outcome {
                Err(error) => {
                    &&& removal.result == Err::<bool, DetourError>(error)
                    &&& removal.hook == Some(hook) && removal.clone is None
                    &&& final(gateways)@ == old(gateways)@
                },
                Ok(done) => {
                    &&& final(gateways)@ == gateways_after(old(gateways)@, hook, done)
                    &&& match removal_error(hook, done) {
                        Some(error) => {
                            &&& removal.result == Err::<bool, DetourError>(error)
                            &&& removal.hook == Some(hook) && removal.clone is None
                        },
                        None => {
                            &&& removal.result == Ok::<bool, DetourError>(true)
                            &&& removal.hook == Some(retired(hook))
                            &&& removal.clone == match hook {
                                Hook::VtableInstance(instance) => Some(instance.cloned_vtable),
                                _ => None,
                            }
                        },
                    }
                },
            }
        },
{
    match take(registry, name) {
        Some(mut hook) => match outcome {
            Ok(done) => match hook.unhook(gateways, done) {
                Ok(clone) => Unhooked { result: Ok(true), hook: Some(hook), clone },
                Err(error) => Unhooked { result: Err(error), hook: Some(hook), clone: None },
            },
            Err(error) => Unhooked { result: Err(error), hook: Some(hook), clone: None },
        },
        None => Unhooked { result: Ok(false), hook: None, clone: None },
    }
}

/// Takes every hook out of the registry. The hooks that are returned are then to
/// be removed from their targets; their number is the number of hooks torn down.
pub fn unhook_all(registry: &mut Registry) -> (hooks: Vec<Hook>)
    requires
        old(registry).wf(),
    ensures
        final(registry).wf(),
        final(registry)@ == Map::<Seq<char>, Hook>::empty(),
        hooks@ == Seq::new(
            old(registry).entries@.len(),
            |i: int| old(registry).entries@[i].hook,
        ),
        hooks@.len() == old(registry)@.dom().len(),
{
    proof {
        lemma_count(*registry);
    }
    let mut hooks: Vec<Hook> = Vec::new();
    while registry.entries.len() > 0
        invariant
            hooks@.len() + registry.entries@.len() == old(registry).entries@.len(),
            forall|i: int|
                0 <= i < hooks@.len() ==> hooks@[i] == (#[trigger] old(registry).entries@[i]).hook,
            forall|i: int|
                0 <= i < registry.entries@.len() ==> registry.entries@[i] == old(
                    registry,
                ).entries@[hooks@.len() + i],
        decreases registry.entries@.len(),
    {
        let entry = registry.entries.remove(0);
        hooks.push(entry.hook);
    }
    assert(registry@ =~= Map::<Seq<char>, Hook>::empty());
    assert(hooks@ =~= Seq::new(
        old(registry).entries@.len(),
        |i: int| old(registry).entries@[i].hook,
    ));
    hooks
}

/// Returns the names of the registered hooks.
pub fn names(registry: &Registry) -> (list: Vec<String>)
    requires
        registry.wf(),
    ensures
        list@.len() == registry@.dom().len(),
        forall|i: int|
            0 <= i < list@.len() ==> registry@.dom().contains((#[trigger] list@[i])@),
        forall|i: int, j: int|
            0 <= i < j < list@.len() ==> (#[trigger] list@[i])@ != (#[trigger] list@[j])@,
        forall|name: Seq<char>| #[trigger]
            registry@.dom().contains(name) ==> exists|i: int|
                0 <= i < list@.len() && (#[trigger] list@[i])@ == name,
{
    let mut list: Vec<String> = Vec::new();
    let mut i: usize = 0;
    while i < registry.entries.len()
        invariant
            i <= registry.entries@.len(),
            list@.len() == i,
            forall|j: int| 0 <= j < i ==> (#[trigger] list@[j])@ == registry.entries@[j].name@,
        decreases registry.entries@.len() - i,
    {
        let name: String = registry.entries[i].name.as_str().to_owned();
        list.push(name);
        i = i + 1;
    }
    proof {
        lemma_count(*registry);
        assert forall|k: int| 0 <= k < list@.len() implies registry@.dom().contains(
            (#[trigger] list@[k])@,
        ) by {
            lemma_entry(*registry, k);
        }
        assert forall|name: Seq<char>| #[trigger]
            registry@.dom().contains(name) implies exists|k: int|
            0 <= k < list@.len() && (#[trigger] list@[k])@ == name by {
            lemma_position(registry.entries@, name, 0);
            let at = position(registry.entries@, name, 0)->0;
            assert(list@[at]@ == name);
        }
    }
    list
}

/// There are as many names as entries.
pub proof fn lemma_count(registry: Registry)
    requires
        registry.wf(),
    ensures
        registry@.dom().finite(),
        registry@.dom().len() == registry.entries@.len(),
    decreases registry.entries@.len(),
{
    if registry.entries@.len() == 0 {
        assert(registry@.dom() =~= Set::<Seq<char>>::empty());
    } else {
        let names = Seq::new(registry.entries@.len(), |i: int| registry.entries@[i].name@);
        assert(names.no_duplicates());
        names.unique_seq_to_set();
        assert(registry@.dom() =~= names.to_set()) by {
            assert forall|name: Seq<char>|
                registry@.dom().contains(name) == names.to_set().contains(name) by {
                lemma_position(registry.entries@, name, 0);
                if registry@.dom().contains(name) {
                    let at = position(registry.entries@, name, 0)->0;
                    assert(names[at] == name);
                }
                if names.contains(name) {
                    let at = choose|at: int| 0 <= at < names.len() && names[at] == name;
                    assert(registry.entries@[at].name@ == name);
                }
            }
        }
    }
}

/// Returns the number of registered hooks.
pub fn count(registry: &Registry) -> (number: usize)
    requires
        registry.wf(),
    ensures
        number == registry@.dom().len(),
{
    proof {
        lemma_count(*registry);
    }
    registry.entries.len()
}

/// A hook that was registered is the one that is taken out under its name, and
/// the other hooks are not affected.
pub proof fn lemma_register_then_take(hooks: Map<Seq<char>, Hook>, name: Seq<char>, hook: Hook)
    ensures
        hooks.insert(name, hook).dom().contains(name),
        hooks.insert(name, hook)[name] == hook,
        hooks.insert(name, hook).remove(name) == hooks.remove(name),
{
    assert(hooks.insert(name, hook).remove(name) =~= hooks.remove(name));
}

/// Disabling an enabled hook and enabling it again brings all named hooks back to
/// where they were.
pub proof fn lemma_disable_then_enable(
    hooks: Map<Seq<char>, Hook>,
    disabled: Map<Seq<char>, Hook>,
    enabled: Map<Seq<char>, Hook>,
    name: Seq<char>,
    off: HookOutcome,
    on: HookOutcome,
)
    requires
        hooks.dom().contains(name),
        hooks[name].spec_enabled(),
        toggled(hooks, disabled, name, false, off, Ok(true)),
        toggled(disabled, enabled, name, true, on, Ok(true)),
    ensures
        enabled == hooks,
        !disabled[name].spec_enabled(),
{
    assert(enabled =~= hooks);
}

} // verus!
