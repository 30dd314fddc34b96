//! The interception registry: which logical hook slot holds which record,
//! whether it is enabled, and where a call at a hooked entry goes.
//!
//! The byte-level trampoline rewriting is a platform capability performed by
//! the caller; its outcome is handed in as a plain success flag. Everything
//! the registry decides — replacement on re-install, dispatch while enabled,
//! exact restoration on disable, the stored call-original path — is verified
//! here. Callers serialise access to a shared registry with a lock.

use vstd::prelude::*;

use crate::WxError;

verus! {

/// One installed hook: the hooked function, its replacement, and whether
/// interception is currently enabled.
#[derive(Clone, Copy, PartialEq, Eq, Structural, Debug)]
pub struct HookRecord {
    pub original: usize,
    pub replacement: usize,
    pub enabled: bool,
}

/// The registry: at most one active record per logical slot.
pub struct HookRegistry {
    slots: Vec<Option<HookRecord>>,
}

/// Installing writes a fresh enabled record into the slot, replacing any
/// previous record.
pub open spec fn spec_install(
    s: Seq<Option<HookRecord>>,
    slot: int,
    original: usize,
    replacement: usize,
) -> Seq<Option<HookRecord>> {
    s.update(slot, Some(HookRecord { original, replacement, enabled: true }))
}

/// Enabling turns interception on for an occupied slot and changes nothing
/// else.
pub open spec fn spec_enable(s: Seq<Option<HookRecord>>, slot: int) -> Seq<Option<HookRecord>> {
    match s[slot] {
        Some(rec) => s.update(slot, Some(HookRecord { enabled: true, ..rec })),
        None => s,
    }
}

/// Disabling turns interception off for an occupied slot and changes nothing
/// else.
pub open spec fn spec_disable(s: Seq<Option<HookRecord>>, slot: int) -> Seq<Option<HookRecord>> {
    match s[slot] {
        Some(rec) => s.update(slot, Some(HookRecord { enabled: false, ..rec })),
        None => s,
    }
}

/// Where a call arriving at `entry` (the slot's hooked function) goes: to the
/// replacement while the slot holds an enabled record, to `entry` itself
/// otherwise.
pub open spec fn spec_dispatch(s: Seq<Option<HookRecord>>, slot: int, entry: usize) -> usize {
    match s[slot] {
        Some(rec) => if rec.enabled {
            rec.replacement
        } else {
            entry
        },
        None => entry,
    }
}

/// The stored call-original path of the slot, if any: a replacement must call
/// this, never the raw pre-hook address.
pub open spec fn spec_call_original(s: Seq<Option<HookRecord>>, slot: int) -> Option<usize> {
    match s[slot] {
        Some(rec) => Some(rec.original),
        None => None,
    }
}

impl View for HookRegistry {
    type V = Seq<Option<HookRecord>>;

    closed spec fn view(&self) -> Seq<Option<HookRecord>> {
        self.slots@
    }
}

impl HookRegistry {
    /// An empty registry with `slot_count` logical slots.
    pub fn new(slot_count: usize) -> (r: HookRegistry)
        ensures
            r@.len() == slot_count,
            forall|m: int| 0 <= m < slot_count ==> r@[m] is None,
    {
        let mut slots: Vec<Option<HookRecord>> = Vec::new();
        let mut m: usize = 0;
        while m < slot_count
            invariant
                m <= slot_count,
                slots@.len() == m,
                forall|j: int| 0 <= j < m ==> slots@[j] is None,
            decreases slot_count - m,
        {
            slots.push(None);
            m = m + 1;
        }
        HookRegistry { slots }
    }

    /// Installs a hook in `slot`, replacing any previous record; the previous
    /// record's call-original path becomes unreachable, which is accepted.
    /// `creation_ok` is the outcome of the platform's trampoline rewrite;
    /// when it failed the slot is left untouched and the error says so.
    pub fn install(
        &mut self,
        slot: usize,
        original: usize,
        replacement: usize,
        creation_ok: bool,
    ) -> (r: Result<(), WxError>)
        requires
            slot < old(self)@.len(),
        ensures
            final(self)@.len() == old(self)@.len(),
            creation_ok ==> r is Ok && final(self)@ == spec_install(
                old(self)@,
                slot as int,
                original,
                replacement,
            ),
            !creation_ok ==> r == Result::<(), WxError>::Err(WxError::HookCreationFailed)
                && final(self)@ == old(self)@,
    {
        if !creation_ok {
            return Err(WxError::HookCreationFailed);
        }
        self.slots.set(slot, Some(HookRecord { original, replacement, enabled: true }));
        Ok(())
    }

    /// Turns interception on for `slot`; fails on an empty slot.
    pub fn enable(&mut self, slot: usize) -> (r: Result<(), WxError>)
        requires
            slot < old(self)@.len(),
        ensures
            final(self)@.len() == old(self)@.len(),
            final(self)@ == spec_enable(old(self)@, slot as int),
            r is Ok <==> old(self)@[slot as int] is Some,
            r is Err ==> r == Result::<(), WxError>::Err(WxError::NotFound),
    {
        let cur = self.slots[slot];
        match cur {
            Some(rec) => {
                self.slots.set(
                    slot,
                    Some(HookRecord { original: rec.original, replacement: rec.replacement, enabled: true }),
                );
                Ok(())
            },
            None => Err(WxError::NotFound),
        }
    }

    /// Turns interception off for `slot`, restoring the original control
    /// flow exactly; fails on an empty slot.
    pub fn disable(&mut self, slot: usize) -> (r: Result<(), WxError>)
        requires
            slot < old(self)@.len(),
        ensures
            final(self)@.len() == old(self)@.len(),
            final(self)@ == spec_disable(old(self)@, slot as int),
            r is Ok <==> old(self)@[slot as int] is Some,
            r is Err ==> r == Result::<(), WxError>::Err(WxError::NotFound),
    {
        let cur = self.slots[slot];
        match cur {
            Some(rec) => {
                self.slots.set(
                    slot,
                    Some(HookRecord { original: rec.original, replacement: rec.replacement, enabled: false }),
                );
                Ok(())
            },
            None => Err(WxError::NotFound),
        }
    }

    /// Where a call arriving at `entry`, the function hooked under `slot`,
    /// goes under the current registry state.
    pub fn dispatch_target(&self, slot: usize, entry: usize) -> (r: usize)
        requires
            slot < self@.len(),
        ensures
            r == spec_dispatch(self@, slot as int, entry),
    {
        match self.slots[slot] {
            Some(rec) => if rec.enabled {
                rec.replacement
            } else {
                entry
            },
            None => entry,
        }
    }

    /// The stored original of `slot`: what a replacement must call to
    /// reproduce the pre-hook behaviour.
    pub fn call_original_target(&self, slot: usize) -> (r: Option<usize>)
        requires
            slot < self@.len(),
        ensures
            r == spec_call_original(self@, slot as int),
    {
        match self.slots[slot] {
            Some(rec) => Some(rec.original),
            None => None,
        }
    }
}

/// Law: after installing a hook, a call at the hooked entry dispatches to the
/// replacement; the stored call-original path is the hooked function itself;
/// disabling restores dispatch to the entry exactly, and re-enabling
/// intercepts again. Other slots are never affected.
pub proof fn lemma_hook_lifecycle(
    s: Seq<Option<HookRecord>>,
    slot: int,
    original: usize,
    replacement: usize,
    entry: usize,
    other: int,
)
    requires
        0 <= slot < s.len(),
        0 <= other < s.len(),
        other != slot,
    ensures
        spec_dispatch(spec_install(s, slot, original, replacement), slot, entry) == replacement,
        spec_call_original(spec_install(s, slot, original, replacement), slot) == Some(original),
        spec_dispatch(spec_disable(spec_install(s, slot, original, replacement), slot), slot, entry)
            == entry,
        spec_dispatch(
            spec_enable(spec_disable(spec_install(s, slot, original, replacement), slot), slot),
            slot,
            entry,
        ) == replacement,
        spec_dispatch(spec_install(s, slot, original, replacement), other, entry) == spec_dispatch(
            s,
            other,
            entry,
        ),
{
}

/// Law: re-installing over an occupied slot replaces the record whole: the
/// new replacement intercepts and the new original is stored, whatever stood
/// there before.
pub proof fn lemma_install_replaces(
    s: Seq<Option<HookRecord>>,
    slot: int,
    o1: usize,
    r1: usize,
    o2: usize,
    r2: usize,
    entry: usize,
)
    requires
        0 <= slot < s.len(),
    ensures
        spec_dispatch(spec_install(spec_install(s, slot, o1, r1), slot, o2, r2), slot, entry) == r2,
        spec_call_original(spec_install(spec_install(s, slot, o1, r1), slot, o2, r2), slot) == Some(
            o2,
        ),
{
}

} // verus!
