//! One input device: its metadata snapshot, its classification predicates, and
//! its exclusive-access (grab) state.
//!
//! A `DeviceHandle` carries the metadata the classification rules read as plain
//! values, so the rules are plain functions of the snapshot; the kernel handle
//! that performs the actual exclusive-access syscalls is optional, letting a
//! device also stand for a synthetic one when no live handle exists.

use vstd::prelude::*;

use crate::text::{has_substring, str_contains};

verus! {

/// Why opening, grabbing or releasing a device failed.
#[derive(Clone, Copy, Debug, PartialEq, Eq, Structural)]
pub enum DeviceError {
    /// The caller lacks the privilege the operation needs.
    PermissionDenied,
    /// The device node or its metadata is gone.
    NotFound,
    /// Any other system-call failure.
    Io,
}

#[verifier::external_type_specification]
#[verifier::external_body]
pub struct ExEvdevDevice(evdev::Device);

/// Mathematical view of a [`DeviceHandle`]: the metadata snapshot, the grab state,
/// and whether a live kernel handle backs the device.
pub ghost struct DeviceModel {
    pub sysname: Seq<char>,
    pub name: Seq<char>,
    pub syspath: Seq<char>,
    pub keyboard: bool,
    pub grabbed: bool,
    pub backed: bool,
}

/// The two models agree on everything but the grab state.
pub open spec fn same_identity(a: DeviceModel, b: DeviceModel) -> bool {
    &&& a.sysname == b.sysname
    &&& a.name == b.name
    &&& a.syspath == b.syspath
    &&& a.keyboard == b.keyboard
    &&& a.backed == b.backed
}

/// The path marker of an internally wired bus.
pub open spec fn platform_marker() -> Seq<char> {
    "platform"@
}

/// Best-effort classification: a device counts as platform (internally wired)
/// when its system path mentions the platform bus.
pub open spec fn platform_model(m: DeviceModel) -> bool {
    has_substring(m.syspath, platform_marker())
}

/// One input device. The identifier (`sysname`), display name, system path and
/// keyboard capability are an immutable snapshot taken when the device was
/// opened; only the grab state changes over the device's lifetime.
pub struct DeviceHandle {
    sysname: String,
    name: String,
    syspath: String,
    keyboard: bool,
    grabbed: bool,
    handle: Option<evdev::Device>,
}

/// Relies on `evdev::Device::grab`: a single `EVIOCGRAB` ioctl requesting
/// exclusive access. Whether it succeeds depends on the kernel and on the
/// caller's privilege, so nothing is promised of the outcome; the system
/// error is folded into [`DeviceError`].
#[verifier::external_body]
fn evdev_grab(d: &mut evdev::Device) -> (r: Result<(), DeviceError>) {
    match d.grab() {
        Ok(()) => Ok(()),
        Err(e) => Err(match e.kind() {
            std::io::ErrorKind::PermissionDenied => DeviceError::PermissionDenied,
            std::io::ErrorKind::NotFound => DeviceError::NotFound,
            _ => DeviceError::Io,
        }),
    }
}

/// Relies on `evdev::Device::ungrab`: the releasing `EVIOCGRAB` ioctl. As with
/// the grab, nothing is promised of the outcome.
#[verifier::external_body]
fn evdev_ungrab(d: &mut evdev::Device) -> (r: Result<(), DeviceError>) {
    match d.ungrab() {
        Ok(()) => Ok(()),
        Err(e) => Err(match e.kind() {
            std::io::ErrorKind::PermissionDenied => DeviceError::PermissionDenied,
            std::io::ErrorKind::NotFound => DeviceError::NotFound,
            _ => DeviceError::Io,
        }),
    }
}

impl View for DeviceHandle {
    type V = DeviceModel;

    closed spec fn view(&self) -> DeviceModel {
        DeviceModel {
            sysname: self.sysname@,
            name: self.name@,
            syspath: self.syspath@,
            keyboard: self.keyboard,
            grabbed: self.grabbed,
            backed: self.handle is Some,
        }
    }
}

impl DeviceHandle {
    /// A synthetic device built from a metadata snapshot alone, with no kernel
    /// handle behind it: grab and ungrab then only track state.
    pub fn new(sysname: String, name: String, syspath: String, keyboard: bool) -> (d: DeviceHandle)
        ensures
            d@ == (DeviceModel {
                sysname: sysname@,
                name: name@,
                syspath: syspath@,
                keyboard,
                grabbed: false,
                backed: false,
            }),
    {
        DeviceHandle { sysname, name, syspath, keyboard, grabbed: false, handle: None }
    }

    /// A device backed by a live kernel handle; it starts released.
    pub fn with_handle(
        sysname: String,
        name: String,
        syspath: String,
        keyboard: bool,
        handle: evdev::Device,
    ) -> (d: DeviceHandle)
        ensures
            d@ == (DeviceModel {
                sysname: sysname@,
                name: name@,
                syspath: syspath@,
                keyboard,
                grabbed: false,
                backed: true,
            }),
    {
        DeviceHandle { sysname, name, syspath, keyboard, grabbed: false, handle: Some(handle) }
    }

    /// The device's advertised capability set marks it as a keyboard.
    pub fn is_keyboard_device(&self) -> (r: bool)
        ensures
            r == self@.keyboard,
    {
        self.keyboard
    }

    /// The device sits on an internally wired (platform) bus — a best-effort
    /// path heuristic, not a guaranteed classification.
    pub fn is_platform_device(&self) -> (r: bool)
        ensures
            r == platform_model(self@),
    {
        str_contains(self.syspath.as_str(), "platform")
    }

    /// Request exclusive consumption of this device's input events.
    ///
    /// Grabbing an already-grabbed device succeeds without changing any
    /// observable state. On success the device is grabbed; on failure the
    /// grab state is unchanged, and a device without a kernel handle never
    /// fails.
    pub fn grab(&mut self) -> (r: Result<(), DeviceError>)
        ensures
            same_identity(old(self)@, final(self)@),
            old(self)@.grabbed ==> r is Ok && *final(self) == *old(self),
            r is Ok ==> final(self)@.grabbed,
            r is Err ==> final(self)@ == old(self)@,
            !old(self)@.backed ==> r is Ok,
    {
        if self.grabbed {
            return Ok(());
        }
        let attempt = match &mut self.handle {
            None => Ok(()),
            Some(h) => evdev_grab(h),
        };
        match attempt {
            Ok(()) => {
                self.grabbed = true;
                Ok(())
            },
            Err(e) => Err(e),
        }
    }

    /// Release exclusive consumption of this device's input events.
    ///
    /// Releasing an already-released device succeeds without changing any
    /// observable state; the other clauses mirror [`DeviceHandle::grab`].
    pub fn ungrab(&mut self) -> (r: Result<(), DeviceError>)
        ensures
            same_identity(old(self)@, final(self)@),
            !old(self)@.grabbed ==> r is Ok && *final(self) == *old(self),
            r is Ok ==> !final(self)@.grabbed,
            r is Err ==> final(self)@ == old(self)@,
            !old(self)@.backed ==> r is Ok,
    {
        if !self.grabbed {
            return Ok(());
        }
        let attempt = match &mut self.handle {
            None => Ok(()),
            Some(h) => evdev_ungrab(h),
        };
        match attempt {
            Ok(()) => {
                self.grabbed = false;
                Ok(())
            },
            Err(e) => Err(e),
        }
    }

    /// The human-readable device name.
    pub fn name(&self) -> (r: &str)
        ensures
            r@ == self@.name,
    {
        self.name.as_str()
    }

    /// The stable short identifier of the device node.
    pub fn sysname(&self) -> (r: &str)
        ensures
            r@ == self@.sysname,
    {
        self.sysname.as_str()
    }

    /// Whether this device is currently exclusively grabbed.
    pub fn is_grabbed(&self) -> (r: bool)
        ensures
            r == self@.grabbed,
    {
        self.grabbed
    }
}

} // verus!
