use no_internal_kbd::text::{str_contains, str_eq};

#[test]
fn contains_in_middle() {
    assert!(str_contains("/sys/devices/platform/i8042/serio0", "platform"));
}

#[test]
fn contains_at_start_and_end() {
    assert!(str_contains("event3", "event"));
    assert!(str_contains("xevent", "event"));
}

#[test]
fn contains_absent() {
    assert!(!str_contains("/sys/devices/pci0000:00/usb1", "platform"));
}

#[test]
fn contains_empty_needle() {
    assert!(str_contains("anything", ""));
    assert!(str_contains("", ""));
}

#[test]
fn contains_needle_longer_than_haystack() {
    assert!(!str_contains("eve", "event"));
}

#[test]
fn contains_whole_string() {
    assert!(str_contains("event", "event"));
}

#[test]
fn contains_repeated_near_miss() {
    assert!(str_contains("eveevent", "event"));
    assert!(!str_contains("eveeven", "event"));
}

#[test]
fn eq_basic() {
    assert!(str_eq("add", "add"));
    assert!(!str_eq("add", "remove"));
    assert!(!str_eq("add", "addd"));
    assert!(str_eq("", ""));
    assert!(!str_eq("", "a"));
}
