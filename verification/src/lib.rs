//! Keeps a laptop's built-in keyboard disabled while an external keyboard is
//! attached: input devices are classified as platform (internally wired) or
//! external, and every platform keyboard is exclusively grabbed exactly while
//! at least one external keyboard is present.
//!
//! The controller here is the policy core alone. Enumerating live devices,
//! the privilege check and the hotplug event loop are operating-system work
//! that a thin driver performs around this crate, feeding the controller
//! plain metadata snapshots and opened device handles.

use vstd::prelude::*;

use crate::device::{same_identity, DeviceError, DeviceHandle, DeviceModel};
use crate::text::{has_substring, str_contains, str_eq};

pub mod device;
pub mod text;

verus! {

/// The models of a sequence of devices, in order.
pub open spec fn models(v: Seq<DeviceHandle>) -> Seq<DeviceModel> {
    v.map_values(|d: DeviceHandle| d@)
}

/// Every device of the sequence is exclusively grabbed.
pub open spec fn all_grabbed(s: Seq<DeviceModel>) -> bool {
    forall|i: int| 0 <= i < s.len() ==> s[i].grabbed
}

/// Every device of the sequence is released.
pub open spec fn all_released(s: Seq<DeviceModel>) -> bool {
    forall|i: int| 0 <= i < s.len() ==> !s[i].grabbed
}

/// No two devices of the sequence share an identifier.
pub open spec fn distinct_sysnames(s: Seq<DeviceModel>) -> bool {
    forall|i: int, j: int| 0 <= i < j < s.len() ==> s[i].sysname != s[j].sysname
}

/// Some device of the sequence carries this identifier.
pub open spec fn has_sysname(s: Seq<DeviceModel>, sysname: Seq<char>) -> bool {
    exists|i: int| 0 <= i < s.len() && s[i].sysname == sysname
}

/// No grab in the sequence can fail: each device is already grabbed, or has
/// no live kernel handle whose syscall could be refused.
pub open spec fn grab_cannot_fail(s: Seq<DeviceModel>) -> bool {
    forall|i: int| 0 <= i < s.len() ==> (#[trigger] s[i]).grabbed || !s[i].backed
}

/// No ungrab in the sequence can fail: each device is already released, or
/// has no live kernel handle whose syscall could be refused.
pub open spec fn ungrab_cannot_fail(s: Seq<DeviceModel>) -> bool {
    forall|i: int| 0 <= i < s.len() ==> !(#[trigger] s[i]).grabbed || !s[i].backed
}

/// Failure isolation on a grab pass from `a` to `b`: every device was
/// attempted, so each one either ends grabbed or is a kernel-backed device
/// whose own grab failed, left exactly as it was — a failure on one device
/// never prevents the attempt on another.
pub open spec fn grab_attempted_each(a: Seq<DeviceModel>, b: Seq<DeviceModel>) -> bool {
    forall|i: int|
        #![trigger a[i]]
        #![trigger b[i]]
        0 <= i < a.len() ==> b[i].grabbed || (a[i].backed && b[i] == a[i])
}

/// Failure isolation on a release pass from `a` to `b`: every device was
/// attempted, so each one either ends released or is a kernel-backed device
/// whose own ungrab failed, left exactly as it was.
pub open spec fn ungrab_attempted_each(a: Seq<DeviceModel>, b: Seq<DeviceModel>) -> bool {
    forall|i: int|
        #![trigger a[i]]
        #![trigger b[i]]
        0 <= i < a.len() ==> !b[i].grabbed || (a[i].backed && b[i] == a[i])
}

/// The sequences have the same length and the devices agree pairwise on
/// identity: only grab states may differ.
pub open spec fn identities_kept(a: Seq<DeviceModel>, b: Seq<DeviceModel>) -> bool {
    &&& a.len() == b.len()
    &&& forall|i: int| 0 <= i < a.len() ==> same_identity(#[trigger] a[i], b[i])
}

/// A keyboard wired into the machine's internal bus.
pub open spec fn keyboard_platform() -> spec_fn(DeviceModel) -> bool {
    |m: DeviceModel| m.keyboard && crate::device::platform_model(m)
}

/// A keyboard-capable device on a pluggable bus.
pub open spec fn keyboard_external() -> spec_fn(DeviceModel) -> bool {
    |m: DeviceModel| m.keyboard && !crate::device::platform_model(m)
}

/// The keyboard controller: the partition of the keyboard-capable devices
/// into platform and external, kept under the invariant that platform
/// keyboards are grabbed exactly while the external set is non-empty.
pub struct Context {
    pub platform_kbds: Vec<DeviceHandle>,
    pub external_kbds: Vec<DeviceHandle>,
}

impl Context {
    /// The models of the platform keyboards.
    pub open spec fn platform(self) -> Seq<DeviceModel> {
        models(self.platform_kbds@)
    }

    /// The models of the external keyboards.
    pub open spec fn external(self) -> Seq<DeviceModel> {
        models(self.external_kbds@)
    }

    /// Well-formed: the external keyboards carry pairwise distinct
    /// identifiers, so the set behaves as a mapping keyed by identifier.
    pub open spec fn wf(self) -> bool {
        distinct_sysnames(self.external())
    }

    /// The core correctness property: platform keyboards are all grabbed
    /// while at least one external keyboard is attached, and all released
    /// while none is.
    pub open spec fn policy_holds(self) -> bool {
        if self.external().len() > 0 {
            all_grabbed(self.platform())
        } else {
            all_released(self.platform())
        }
    }

    /// Partition the enumerated devices: keep the keyboards, split them by
    /// bus classification. Non-keyboard devices are dropped; every kept
    /// device is unchanged.
    pub fn initialize(devices: Vec<DeviceHandle>) -> (ctx: Context)
        requires
            distinct_sysnames(models(devices@)),
        ensures
            ctx.platform() == models(devices@).filter(keyboard_platform()),
            ctx.external() == models(devices@).filter(keyboard_external()),
            ctx.wf(),
    {
        let ghost oms: Seq<DeviceModel> = models(devices@);
        let mut platform_kbds: Vec<DeviceHandle> = Vec::new();
        let mut external_kbds: Vec<DeviceHandle> = Vec::new();
        let mut rest = devices;
        let ghost mut processed: Seq<DeviceModel> = Seq::empty();
        proof {
            reveal(Seq::filter);
            assert(models(platform_kbds@) =~= processed.filter(keyboard_platform()));
            assert(models(external_kbds@) =~= processed.filter(keyboard_external()));
            assert(oms =~= processed + models(rest@));
        }
        while rest.len() > 0
            invariant
                oms == processed + models(rest@),
                models(platform_kbds@) == processed.filter(keyboard_platform()),
                models(external_kbds@) == processed.filter(keyboard_external()),
            decreases rest.len(),
        {
            let ghost old_rest: Seq<DeviceHandle> = rest@;
            let d = rest.remove(0);
            let ghost md: DeviceModel = d@;
            proof {
                assert(models(old_rest)[0] == md);
                assert(models(rest@) =~= models(old_rest).subrange(1, models(old_rest).len() as int));
                assert(processed.push(md) + models(rest@) =~= processed + models(old_rest));
                lemma_filter_one_more(processed, md, keyboard_platform());
                lemma_filter_one_more(processed, md, keyboard_external());
            }
            if d.is_keyboard_device() {
                if d.is_platform_device() {
                    platform_kbds.push(d);
                } else {
                    external_kbds.push(d);
                }
            }
            proof {
                processed = processed.push(md);
                assert(models(platform_kbds@) =~= processed.filter(keyboard_platform()));
                assert(models(external_kbds@) =~= processed.filter(keyboard_external()));
            }
        }
        proof {
            assert(processed =~= oms);
            lemma_filter_keeps_distinct(oms, keyboard_external());
        }
        Context { platform_kbds, external_kbds }
    }

    /// Grab every platform keyboard, in one full pass: a failure on one
    /// device does not stop the attempt on the others, and the first failure
    /// is surfaced. The external set and every device identity are untouched,
    /// and a device already grabbed stays grabbed.
    pub fn disable_platform_kbds(&mut self) -> (r: Result<(), DeviceError>)
        ensures
            final(self).external_kbds == old(self).external_kbds,
            identities_kept(old(self).platform(), final(self).platform()),
            forall|i: int| 0 <= i < old(self).platform().len() && (#[trigger] old(
                self,
            ).platform()[i]).grabbed ==> final(self).platform()[i].grabbed,
            grab_attempted_each(old(self).platform(), final(self).platform()),
            r is Ok ==> all_grabbed(final(self).platform()),
            grab_cannot_fail(old(self).platform()) ==> r is Ok,
    {
        let mut failure: Option<DeviceError> = None;
        let mut i: usize = 0;
        while i < self.platform_kbds.len()
            invariant
                self.external_kbds == old(self).external_kbds,
                self.platform().len() == old(self).platform().len(),
                i <= self.platform().len(),
                forall|j: int| 0 <= j < i ==> same_identity(
                    #[trigger] old(self).platform()[j],
                    self.platform()[j],
                ),
                forall|j: int| 0 <= j < i && (#[trigger] old(self).platform()[j]).grabbed
                    ==> self.platform()[j].grabbed,
                forall|j: int| i <= j < self.platform().len()
                    ==> #[trigger] self.platform_kbds@[j] == old(self).platform_kbds@[j],
                failure is None ==> forall|j: int| 0 <= j < i
                    ==> (#[trigger] self.platform()[j]).grabbed,
                failure is Some ==> !grab_cannot_fail(old(self).platform()),
                forall|j: int|
                    #![trigger self.platform()[j]]
                    0 <= j < i ==> self.platform()[j].grabbed || (old(
                        self,
                    ).platform()[j].backed && self.platform()[j] == old(self).platform()[j]),
            decreases self.platform_kbds.len() - i,
        {
            let ghost before = self.platform_kbds@;
            let mut d = self.platform_kbds.remove(i);
            let ghost dm_old = d@;
            let res = d.grab();
            let ghost dm = d@;
            self.platform_kbds.insert(i, d);
            proof {
                assert(forall|j: int| 0 <= j < before.len() && j != i
                    ==> #[trigger] self.platform_kbds@[j] == before[j]);
                assert(models(self.platform_kbds@)[i as int] == dm);
                assert(before[i as int] == old(self).platform_kbds@[i as int]);
                assert(dm_old == old(self).platform()[i as int]);
                if res is Err {
                    assert(dm_old.backed && !dm_old.grabbed);
                    assert(!grab_cannot_fail(old(self).platform()));
                    assert(dm == dm_old);
                }
            }
            if let Err(e) = res {
                if failure.is_none() {
                    failure = Some(e);
                }
            }
            proof {
                if failure is None {
                    assert forall|j: int| 0 <= j < i + 1 implies (#[trigger] self.platform()[j]).grabbed by {
                        if j < i {
                            assert(self.platform_kbds@[j] == before[j]);
                            assert(models(before)[j].grabbed);
                        } else {
                            assert(self.platform()[j] == dm);
                        }
                    }
                }
                assert forall|j: int| 0 <= j < i + 1 implies (self.platform()[j].grabbed || (
                old(self).platform()[j].backed && self.platform()[j] == old(self).platform()[j]))
                    by {
                    if j < i {
                        assert(self.platform_kbds@[j] == before[j]);
                        assert(models(before)[j].grabbed || (old(self).platform()[j].backed
                            && models(before)[j] == old(self).platform()[j]));
                    } else {
                        assert(self.platform()[j] == dm);
                    }
                }
            }
            i += 1;
        }
        match failure {
            None => Ok(()),
            Some(e) => Err(e),
        }
    }

    /// Release every platform keyboard, in one full pass, mirroring
    /// [`Context::disable_platform_kbds`]: failures do not stop the pass and
    /// the first one is surfaced; a device already released stays released.
    pub fn enable_platform_kbds(&mut self) -> (r: Result<(), DeviceError>)
        ensures
            final(self).external_kbds == old(self).external_kbds,
            identities_kept(old(self).platform(), final(self).platform()),
            forall|i: int| 0 <= i < old(self).platform().len() && !(#[trigger] old(
                self,
            ).platform()[i]).grabbed ==> !final(self).platform()[i].grabbed,
            ungrab_attempted_each(old(self).platform(), final(self).platform()),
            r is Ok ==> all_released(final(self).platform()),
            ungrab_cannot_fail(old(self).platform()) ==> r is Ok,
    {
        let mut failure: Option<DeviceError> = None;
        let mut i: usize = 0;
        while i < self.platform_kbds.len()
            invariant
                self.external_kbds == old(self).external_kbds,
                self.platform().len() == old(self).platform().len(),
                i <= self.platform().len(),
                forall|j: int| 0 <= j < i ==> same_identity(
                    #[trigger] old(self).platform()[j],
                    self.platform()[j],
                ),
                forall|j: int| 0 <= j < i && !(#[trigger] old(self).platform()[j]).grabbed
                    ==> !self.platform()[j].grabbed,
                forall|j: int| i <= j < self.platform().len()
                    ==> #[trigger] self.platform_kbds@[j] == old(self).platform_kbds@[j],
                failure is None ==> forall|j: int| 0 <= j < i
                    ==> !(#[trigger] self.platform()[j]).grabbed,
                failure is Some ==> !ungrab_cannot_fail(old(self).platform()),
                forall|j: int|
                    #![trigger self.platform()[j]]
                    0 <= j < i ==> !self.platform()[j].grabbed || (old(
                        self,
                    ).platform()[j].backed && self.platform()[j] == old(self).platform()[j]),
            decreases self.platform_kbds.len() - i,
        {
            let ghost before = self.platform_kbds@;
            let mut d = self.platform_kbds.remove(i);
            let ghost dm_old = d@;
            let res = d.ungrab();
            let ghost dm = d@;
            self.platform_kbds.insert(i, d);
            proof {
                assert(forall|j: int| 0 <= j < before.len() && j != i
                    ==> #[trigger] self.platform_kbds@[j] == before[j]);
                assert(models(self.platform_kbds@)[i as int] == dm);
                assert(before[i as int] == old(self).platform_kbds@[i as int]);
                assert(dm_old == old(self).platform()[i as int]);
                if res is Err {
                    assert(dm_old.backed && dm_old.grabbed);
                    assert(!ungrab_cannot_fail(old(self).platform()));
                    assert(dm == dm_old);
                }
            }
            if let Err(e) = res {
                if failure.is_none() {
                    failure = Some(e);
                }
            }
            proof {
                if failure is None {
                    assert forall|j: int| 0 <= j < i + 1 implies !(#[trigger] self.platform()[j]).grabbed by {
                        if j < i {
                            assert(self.platform_kbds@[j] == before[j]);
                            assert(!models(before)[j].grabbed);
                        } else {
                            assert(self.platform()[j] == dm);
                        }
                    }
                }
                assert forall|j: int| 0 <= j < i + 1 implies (!self.platform()[j].grabbed || (
                old(self).platform()[j].backed && self.platform()[j] == old(self).platform()[j]))
                    by {
                    if j < i {
                        assert(self.platform_kbds@[j] == before[j]);
                        assert(!models(before)[j].grabbed || (old(self).platform()[j].backed
                            && models(before)[j] == old(self).platform()[j]));
                    } else {
                        assert(self.platform()[j] == dm);
                    }
                }
            }
            i += 1;
        }
        match failure {
            None => Ok(()),
            Some(e) => Err(e),
        }
    }

    /// Re-apply the grab policy in one full pass: grab every platform
    /// keyboard while any external keyboard is attached, release them all
    /// otherwise. On success the core invariant holds; on failure every
    /// device was still attempted, and a device already in the state the
    /// policy asks for stays there.
    pub fn apply_policy(&mut self) -> (r: Result<(), DeviceError>)
        ensures
            final(self).external_kbds == old(self).external_kbds,
            identities_kept(old(self).platform(), final(self).platform()),
            old(self).external().len() > 0 ==> grab_attempted_each(
                old(self).platform(),
                final(self).platform(),
            ),
            old(self).external().len() == 0 ==> ungrab_attempted_each(
                old(self).platform(),
                final(self).platform(),
            ),
            old(self).external().len() > 0 ==> (forall|i: int|
                0 <= i < old(self).platform().len() && (#[trigger] old(
                    self,
                ).platform()[i]).grabbed ==> final(self).platform()[i].grabbed),
            old(self).external().len() == 0 ==> (forall|i: int|
                0 <= i < old(self).platform().len() && !(#[trigger] old(
                    self,
                ).platform()[i]).grabbed ==> !final(self).platform()[i].grabbed),
            r is Ok ==> final(self).policy_holds(),
            old(self).external().len() > 0 && grab_cannot_fail(old(self).platform()) ==> r is Ok,
            old(self).external().len() == 0 && ungrab_cannot_fail(old(self).platform()) ==> r
                is Ok,
    {
        if !self.external_kbds.is_empty() {
            self.disable_platform_kbds()
        } else {
            self.enable_platform_kbds()
        }
    }

    /// The index of the first external keyboard carrying this identifier,
    /// if any.
    fn find_external(&self, sysname: &str) -> (r: Option<usize>)
        ensures
            match r {
                Some(k) => k < self.external().len() && self.external()[k as int].sysname
                    == sysname@,
                None => !has_sysname(self.external(), sysname@),
            },
    {
        let mut k: usize = 0;
        let mut found = false;
        while !found && k < self.external_kbds.len()
            invariant
                k <= self.external().len(),
                !found ==> forall|j: int| 0 <= j < k ==> (#[trigger] self.external()[j]).sysname
                    != sysname@,
                found ==> k < self.external().len() && self.external()[k as int].sysname
                    == sysname@,
            decreases self.external_kbds.len() - k, (if found { 0int } else { 1int }),
        {
            let cur: &DeviceHandle = &self.external_kbds[k];
            if str_eq(cur.sysname(), sysname) {
                found = true;
            } else {
                k += 1;
            }
        }
        if found {
            Some(k)
        } else {
            None
        }
    }

    /// React to an attach event: insert the freshly opened device into the
    /// external set — replacing any stale entry with the same identifier, so
    /// the identifier keeps exactly one entry — then grab every platform
    /// keyboard.
    pub fn on_external_device_added(&mut self, device: DeviceHandle) -> (r: Result<
        (),
        DeviceError,
    >)
        requires
            old(self).wf(),
        ensures
            final(self).wf(),
            has_sysname(old(self).external(), device@.sysname) ==> exists|k: int|
                0 <= k < old(self).external().len() && (#[trigger] old(
                    self,
                ).external()[k]).sysname == device@.sysname && final(self).external() == old(
                    self,
                ).external().update(k, device@),
            !has_sysname(old(self).external(), device@.sysname) ==> final(self).external() == old(
                self,
            ).external().push(device@),
            has_sysname(final(self).external(), device@.sysname),
            identities_kept(old(self).platform(), final(self).platform()),
            forall|i: int| 0 <= i < old(self).platform().len() && (#[trigger] old(
                self,
            ).platform()[i]).grabbed ==> final(self).platform()[i].grabbed,
            grab_attempted_each(old(self).platform(), final(self).platform()),
            r is Ok ==> final(self).policy_holds() && all_grabbed(final(self).platform()),
            grab_cannot_fail(old(self).platform()) ==> r is Ok,
    {
        let ghost dm = device@;
        let ghost before = self.external_kbds@;
        match self.find_external(device.sysname()) {
            Some(k) => {
                let _stale = self.external_kbds.remove(k);
                self.external_kbds.insert(k, device);
                proof {
                    assert(self.external() =~= models(before).update(k as int, dm));
                    assert(distinct_sysnames(self.external())) by {
                        assert(forall|j: int| 0 <= j < models(before).len() && j != k
                            ==> #[trigger] self.external()[j] == models(before)[j]);
                        assert(self.external()[k as int].sysname == models(before)[
                            k as int].sysname);
                    }
                    assert(self.external()[k as int].sysname == dm.sysname);
                }
            },
            None => {
                self.external_kbds.push(device);
                proof {
                    assert(self.external() =~= models(before).push(dm));
                    assert(distinct_sysnames(self.external())) by {
                        assert(forall|j: int| 0 <= j < models(before).len()
                            ==> #[trigger] self.external()[j] == models(before)[j]);
                        assert(!has_sysname(models(before), dm.sysname));
                    }
                    assert(self.external()[self.external().len() - 1] == dm);
                }
            },
        }
        self.disable_platform_kbds()
    }

    /// React to a detach event: drop the identifier's entry from the
    /// external set if it has one — for an unknown identifier the whole
    /// state is left unchanged — and release every platform keyboard once
    /// the last external keyboard is gone. On success the core invariant is
    /// preserved.
    pub fn on_external_device_removed(&mut self, sysname: &str) -> (r: Result<(), DeviceError>)
        requires
            old(self).wf(),
        ensures
            final(self).wf(),
            !has_sysname(old(self).external(), sysname@) ==> r is Ok && *final(self) == *old(self),
            has_sysname(old(self).external(), sysname@) ==> exists|k: int|
                0 <= k < old(self).external().len() && (#[trigger] old(
                    self,
                ).external()[k]).sysname == sysname@ && final(self).external() == old(
                    self,
                ).external().remove(k),
            identities_kept(old(self).platform(), final(self).platform()),
            has_sysname(old(self).external(), sysname@) && old(self).external().len() == 1 && r
                is Ok ==> all_released(final(self).platform()),
            has_sysname(old(self).external(), sysname@) && old(self).external().len() == 1
                ==> ungrab_attempted_each(old(self).platform(), final(self).platform()),
            has_sysname(old(self).external(), sysname@) && old(self).external().len() != 1 ==> r
                is Ok,
            old(self).external().len() != 1 ==> final(self).platform_kbds == old(
                self,
            ).platform_kbds,
            old(self).policy_holds() && r is Ok ==> final(self).policy_holds(),
            ungrab_cannot_fail(old(self).platform()) ==> r is Ok,
    {
        let ghost before = self.external_kbds@;
        match self.find_external(sysname) {
            Some(k) => {
                let _removed = self.external_kbds.remove(k);
                proof {
                    assert(self.external() =~= models(before).remove(k as int));
                    assert(distinct_sysnames(self.external())) by {
                        assert(forall|j: int| 0 <= j < self.external().len()
                            ==> #[trigger] self.external()[j] == if j < k {
                                models(before)[j]
                            } else {
                                models(before)[j + 1]
                            });
                    }
                }
                if self.external_kbds.is_empty() {
                    self.enable_platform_kbds()
                } else {
                    Ok(())
                }
            },
            None => Ok(()),
        }
    }
}

/// What the steady-state loop does with one hotplug event.
#[derive(Clone, Copy, Debug, PartialEq, Eq, Structural)]
pub enum EventDecision {
    /// Open the device and add it to the external set.
    AttachExternal,
    /// Drop the identifier from the external set.
    DetachExternal,
    /// The event does not concern an external keyboard: do nothing.
    Ignore,
}

/// The substring that marks an input device node.
pub open spec fn event_marker() -> Seq<char> {
    "event"@
}

/// A qualifying event names an input device node (the identifier mentions
/// the node marker), carries the keyboard capability, and one of the two
/// recognized actions; everything else is ignored.
pub open spec fn decision_model(
    sysname: Seq<char>,
    keyboard: bool,
    action: Option<Seq<char>>,
) -> EventDecision {
    if keyboard && has_substring(sysname, event_marker()) && action is Some {
        if action.unwrap() == "add"@ {
            EventDecision::AttachExternal
        } else if action.unwrap() == "remove"@ {
            EventDecision::DetachExternal
        } else {
            EventDecision::Ignore
        }
    } else {
        EventDecision::Ignore
    }
}

/// Decide what one hotplug event asks for: the device identifier, the
/// event's keyboard-capability property and its action string come in as
/// plain values, and the decision is a pure function of them.
pub fn decide_event(sysname: &str, keyboard: bool, action: Option<&str>) -> (r: EventDecision)
    ensures
        r == decision_model(
            sysname@,
            keyboard,
            match action {
                Some(a) => Some(a@),
                None => None,
            },
        ),
{
    if !keyboard || !str_contains(sysname, "event") {
        return EventDecision::Ignore;
    }
    match action {
        None => EventDecision::Ignore,
        Some(a) => {
            if str_eq(a, "add") {
                EventDecision::AttachExternal
            } else if str_eq(a, "remove") {
                EventDecision::DetachExternal
            } else {
                EventDecision::Ignore
            }
        },
    }
}

/// Filtering one more element appends it exactly when it satisfies the
/// predicate.
proof fn lemma_filter_one_more(
    s: Seq<DeviceModel>,
    m: DeviceModel,
    pred: spec_fn(DeviceModel) -> bool,
)
    ensures
        s.push(m).filter(pred) == if pred(m) {
            s.filter(pred).push(m)
        } else {
            s.filter(pred)
        },
{
    reveal(Seq::filter);
    assert(s.push(m).drop_last() =~= s);
    assert(s.push(m).last() == m);
}

/// Every element of the filtered sequence occurs in the source.
proof fn lemma_filter_in_source(s: Seq<DeviceModel>, pred: spec_fn(DeviceModel) -> bool)
    ensures
        forall|i: int| 0 <= i < s.filter(pred).len() ==> s.contains(#[trigger] s.filter(pred)[i]),
    decreases s.len(),
{
    reveal(Seq::filter);
    if s.len() > 0 {
        let init = s.drop_last();
        lemma_filter_in_source(init, pred);
        let out = s.filter(pred);
        assert forall|i: int| 0 <= i < out.len() implies s.contains(out[i]) by {
            if pred(s.last()) && i == out.len() - 1 {
                assert(s[s.len() - 1] == out[i]);
            } else {
                assert(out[i] == init.filter(pred)[i]);
                assert(init.contains(init.filter(pred)[i]));
                let k = choose|k: int| 0 <= k < init.len() && init[k] == out[i];
                assert(s[k] == out[i]);
            }
        }
    }
}

/// Filtering keeps the identifiers pairwise distinct.
proof fn lemma_filter_keeps_distinct(s: Seq<DeviceModel>, pred: spec_fn(DeviceModel) -> bool)
    requires
        distinct_sysnames(s),
    ensures
        distinct_sysnames(s.filter(pred)),
    decreases s.len(),
{
    reveal(Seq::filter);
    if s.len() > 0 {
        let init = s.drop_last();
        assert(distinct_sysnames(init));
        lemma_filter_keeps_distinct(init, pred);
        lemma_filter_in_source(init, pred);
        let out = s.filter(pred);
        if pred(s.last()) {
            assert(out == init.filter(pred).push(s.last()));
            assert forall|i: int, j: int| 0 <= i < j < out.len() implies out[i].sysname
                != out[j].sysname by {
                if j == out.len() - 1 {
                    assert(out[i] == init.filter(pred)[i]);
                    assert(init.contains(out[i]));
                    let k = choose|k: int| 0 <= k < init.len() && init[k] == out[i];
                    assert(s[k] == out[i]);
                    assert(s[k].sysname != s[s.len() - 1].sysname);
                } else {
                    assert(out[i] == init.filter(pred)[i] && out[j] == init.filter(pred)[j]);
                }
            }
        }
    }
}

} // verus!
