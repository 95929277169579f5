use std::rc::Rc;

use pipewire_native::interface::{Support, LOG};

// A stand-in log façade: identity is observed through the marker value and
// teardown through the shared token's reference count.
struct FakeLog {
    marker: u32,
    alive: Rc<()>,
}

const LOG_TOKEN: u32 = 1;
const SYSTEM_TOKEN: u32 = 2;

#[test]
fn test_registry_replacement_keeps_one_descriptor() {
    let mut support: Support<FakeLog> = Support::new();

    let old_probe = Rc::new(());
    support.add_interface(
        LOG.to_string(),
        LOG_TOKEN,
        FakeLog { marker: 10, alive: old_probe.clone() },
        0x1000,
    );

    let got = support.get_interface(LOG, LOG_TOKEN).unwrap();
    assert_eq!(got.marker, 10);
    assert_eq!(Rc::strong_count(&old_probe), 2);

    // A request under the wrong type token is refused.
    assert!(support.get_interface(LOG, SYSTEM_TOKEN).is_none());

    // Registering a new façade under the same name replaces it in both
    // views; the descriptor array still holds exactly one entry for the
    // name, carrying the new handle, and the old façade is dropped.
    support.add_interface(
        LOG.to_string(),
        LOG_TOKEN,
        FakeLog { marker: 20, alive: Rc::new(()) },
        0x2000,
    );

    let got = support.get_interface(LOG, LOG_TOKEN).unwrap();
    assert_eq!(got.marker, 20);
    assert_eq!(Rc::strong_count(&old_probe), 1);

    let c = support.c_support();
    let log_entries: Vec<_> = c.iter().filter(|e| e.name == LOG).collect();
    assert_eq!(log_entries.len(), 1);
    assert_eq!(log_entries[0].data, 0x2000);
}

#[test]
fn test_registry_holds_many_names() {
    let mut support: Support<FakeLog> = Support::new();

    support.add_interface("a".to_string(), 1, FakeLog { marker: 1, alive: Rc::new(()) }, 1);
    support.add_interface("b".to_string(), 2, FakeLog { marker: 2, alive: Rc::new(()) }, 2);
    support.add_interface("c".to_string(), 3, FakeLog { marker: 3, alive: Rc::new(()) }, 3);

    assert_eq!(support.get_interface("a", 1).unwrap().marker, 1);
    assert_eq!(support.get_interface("b", 2).unwrap().marker, 2);
    assert_eq!(support.get_interface("c", 3).unwrap().marker, 3);
    assert!(support.get_interface("d", 1).is_none());
    assert_eq!(support.c_support().len(), 3);
}
