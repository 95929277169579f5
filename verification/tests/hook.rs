use std::rc::Rc;
use std::sync::Mutex;

use pipewire_native::hook::HookList;

struct TestEvents {
    constie: Box<dyn FnMut(i32)>,
    normie: Box<dyn FnMut(&TestStruct, i32, &str)>,
    mutie: Box<dyn FnMut(&mut TestStruct, i32, &str)>,
}

struct TestStruct {
    value: i32,
    name: String,
}

#[test]
fn test_hooks() {
    let accum = Rc::new(Mutex::new(0i32));

    let accum1 = accum.clone();
    let accum2 = accum.clone();

    let events = TestEvents {
        // Increment accumulator by callback value
        constie: Box::new(move |i| *accum1.lock().unwrap() += i),
        // Increment accumulator by struct value * callback value
        normie: Box::new(move |this, i, s| {
            *accum2.lock().unwrap() += this.value * i;
            assert_eq!(s, &this.name);
        }),
        // Set struct value to callback value
        mutie: Box::new(move |this, i, s| {
            this.value = i;
            this.name = s.to_string();
        }),
    };

    let mut this = TestStruct { value: 1, name: "First".to_string() };
    let mut hooks: HookList<TestEvents> = HookList::new();

    let id = hooks.append(events);

    for h in hooks.hooks.iter_mut() {
        (h.callbacks.constie)(1);
    }
    assert_eq!(*accum.lock().unwrap(), 1);

    for h in hooks.hooks.iter_mut() {
        (h.callbacks.normie)(&this, 2, "First");
    }
    assert_eq!(*accum.lock().unwrap(), 3);

    for h in hooks.hooks.iter_mut() {
        (h.callbacks.mutie)(&mut this, 4, "Second");
    }
    assert_eq!(this.value, 4);
    assert_eq!(this.name, "Second");

    hooks.remove(id);

    for h in hooks.hooks.iter_mut() {
        (h.callbacks.constie)(1);
    }
    assert_eq!(*accum.lock().unwrap(), 3);
}

#[test]
fn test_hook_order_and_removal() {
    let mut hooks: HookList<u32> = HookList::new();
    let first = hooks.append(10);
    let second = hooks.append(20);
    let front = hooks.prepend(30);

    assert_eq!(hooks.len(), 3);
    assert_eq!(hooks.get(0).id, front);
    assert_eq!(*hooks.get(0).callbacks(), 30);
    assert_eq!(hooks.get(1).id, first);
    assert_eq!(hooks.get(2).id, second);

    assert_eq!(hooks.remove(first), Some(10));
    assert_eq!(hooks.remove(first), None);
    assert_eq!(hooks.len(), 2);
    assert_eq!(hooks.get(0).id, front);
    assert_eq!(hooks.get(1).id, second);
}
