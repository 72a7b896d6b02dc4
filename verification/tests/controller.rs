use no_internal_kbd::device::DeviceHandle;
use no_internal_kbd::{decide_event, Context, EventDecision};

fn platform_kbd(sysname: &str) -> DeviceHandle {
    DeviceHandle::new(
        sysname.to_string(),
        "AT Translated Set 2 keyboard".to_string(),
        format!("/sys/devices/platform/i8042/serio0/input/input0/{}", sysname),
        true,
    )
}

fn external_kbd(sysname: &str) -> DeviceHandle {
    DeviceHandle::new(
        sysname.to_string(),
        "USB Keyboard".to_string(),
        format!("/sys/devices/pci0000:00/0000:00:14.0/usb1/1-2/input/{}", sysname),
        true,
    )
}

fn usb_mouse(sysname: &str) -> DeviceHandle {
    DeviceHandle::new(
        sysname.to_string(),
        "USB Optical Mouse".to_string(),
        format!("/sys/devices/pci0000:00/0000:00:14.0/usb1/1-3/input/{}", sysname),
        false,
    )
}

#[test]
fn classification_platform() {
    let d = platform_kbd("event0");
    assert!(d.is_keyboard_device());
    assert!(d.is_platform_device());
    assert_eq!(d.sysname(), "event0");
    assert_eq!(d.name(), "AT Translated Set 2 keyboard");
    assert!(!d.is_grabbed());
}

#[test]
fn classification_external() {
    let d = external_kbd("event1");
    assert!(d.is_keyboard_device());
    assert!(!d.is_platform_device());
    let m = usb_mouse("event2");
    assert!(!m.is_keyboard_device());
    assert!(!m.is_platform_device());
}

#[test]
fn grab_idempotent() {
    let mut d = platform_kbd("event0");
    assert!(d.grab().is_ok());
    assert!(d.is_grabbed());
    assert!(d.grab().is_ok());
    assert!(d.is_grabbed());
}

#[test]
fn ungrab_idempotent() {
    let mut d = platform_kbd("event0");
    assert!(d.ungrab().is_ok());
    assert!(!d.is_grabbed());
    assert!(d.grab().is_ok());
    assert!(d.ungrab().is_ok());
    assert!(!d.is_grabbed());
    assert!(d.ungrab().is_ok());
    assert!(!d.is_grabbed());
}

#[test]
fn initialize_partitions() {
    let devices = vec![platform_kbd("event0"), external_kbd("event1"), usb_mouse("event2")];
    let ctx = Context::initialize(devices);
    assert_eq!(ctx.platform_kbds.len(), 1);
    assert_eq!(ctx.platform_kbds[0].sysname(), "event0");
    assert_eq!(ctx.external_kbds.len(), 1);
    assert_eq!(ctx.external_kbds[0].sysname(), "event1");
}

#[test]
fn startup_with_external_grabs() {
    let mut ctx = Context::initialize(vec![platform_kbd("event0"), external_kbd("event1")]);
    assert!(ctx.apply_policy().is_ok());
    assert!(ctx.platform_kbds[0].is_grabbed());
}

#[test]
fn startup_without_external_releases() {
    let mut ctx = Context::initialize(vec![platform_kbd("event0")]);
    assert!(ctx.apply_policy().is_ok());
    assert!(!ctx.platform_kbds[0].is_grabbed());
}

#[test]
fn add_then_remove() {
    let mut ctx = Context::initialize(vec![platform_kbd("event0")]);
    assert!(ctx.apply_policy().is_ok());
    assert!(ctx.on_external_device_added(external_kbd("event1")).is_ok());
    assert!(ctx.platform_kbds[0].is_grabbed());
    assert_eq!(ctx.external_kbds.len(), 1);
    assert!(ctx.on_external_device_removed("event1").is_ok());
    assert!(!ctx.platform_kbds[0].is_grabbed());
    assert_eq!(ctx.external_kbds.len(), 0);
}

#[test]
fn multiple_externals() {
    let mut ctx = Context::initialize(vec![platform_kbd("event0")]);
    assert!(ctx.apply_policy().is_ok());
    assert!(ctx.on_external_device_added(external_kbd("event1")).is_ok());
    assert!(ctx.on_external_device_added(external_kbd("event2")).is_ok());
    assert!(ctx.platform_kbds[0].is_grabbed());
    assert!(ctx.on_external_device_removed("event1").is_ok());
    assert!(ctx.platform_kbds[0].is_grabbed());
    assert!(ctx.on_external_device_removed("event2").is_ok());
    assert!(!ctx.platform_kbds[0].is_grabbed());
}

#[test]
fn unknown_remove_noop() {
    let mut ctx = Context::initialize(vec![platform_kbd("event0"), external_kbd("event1")]);
    assert!(ctx.apply_policy().is_ok());
    assert!(ctx.on_external_device_removed("event9").is_ok());
    assert!(ctx.platform_kbds[0].is_grabbed());
    assert_eq!(ctx.external_kbds.len(), 1);
    assert_eq!(ctx.external_kbds[0].sysname(), "event1");
}

#[test]
fn duplicate_add_single_entry() {
    let mut ctx = Context::initialize(vec![platform_kbd("event0")]);
    assert!(ctx.apply_policy().is_ok());
    assert!(ctx.on_external_device_added(external_kbd("event1")).is_ok());
    assert!(ctx.on_external_device_added(external_kbd("event1")).is_ok());
    assert_eq!(ctx.external_kbds.len(), 1);
    assert_eq!(ctx.external_kbds[0].sysname(), "event1");
    assert!(ctx.platform_kbds[0].is_grabbed());
}

#[test]
fn no_platform_keyboards() {
    let mut ctx = Context::initialize(vec![external_kbd("event1")]);
    assert!(ctx.apply_policy().is_ok());
    assert_eq!(ctx.platform_kbds.len(), 0);
    assert_eq!(ctx.external_kbds.len(), 1);
    assert!(ctx.on_external_device_removed("event1").is_ok());
    assert_eq!(ctx.external_kbds.len(), 0);
}

#[test]
fn decide_event_add() {
    let r = decide_event("event5", true, Some("add"));
    assert_eq!(r, EventDecision::AttachExternal);
}

#[test]
fn decide_event_remove() {
    let r = decide_event("event5", true, Some("remove"));
    assert_eq!(r, EventDecision::DetachExternal);
}

#[test]
fn decide_event_other_action() {
    let r = decide_event("event5", true, Some("change"));
    assert_eq!(r, EventDecision::Ignore);
}

#[test]
fn decide_event_no_action() {
    let r = decide_event("event5", true, None);
    assert_eq!(r, EventDecision::Ignore);
}

#[test]
fn decide_event_not_keyboard() {
    let r = decide_event("event5", false, Some("add"));
    assert_eq!(r, EventDecision::Ignore);
}

#[test]
fn decide_event_not_event_node() {
    let r = decide_event("js0", true, Some("add"));
    assert_eq!(r, EventDecision::Ignore);
}
