use pipewire_native::event_loop::{Dispatch, EventLoop, InvokeQueue, LoopControl, SourceKind,
    IO_ERR, IO_HUP, IO_IN, IO_MASK, IO_OUT};
use pipewire_native::error::Error;
use pipewire_native::interface::system::PollEvent;

// Four loop sources — an I/O source with data pending, a signaled event
// source, an expired timer, and an enabled idle — dispatched in one pass.
#[test]
fn test_iterate_dispatches_four_sources_once_each() {
    let mut lp = EventLoop::new();

    let io_fd = 10;
    let event_fd = 11;
    let timer_fd = 12;
    lp.add_source(io_fd, SourceKind::Io, 0x1).unwrap();
    lp.add_source(event_fd, SourceKind::Event, 0x1).unwrap();
    lp.add_source(timer_fd, SourceKind::Timer, 0x1).unwrap();
    let idle = lp.add_idle(true);

    // What the poll wait reported: the three descriptors became ready
    // before the deadline, in this order.
    let events = vec![
        PollEvent { events: 0x1, data: io_fd as u64 },
        PollEvent { events: 0x1, data: event_fd as u64 },
        PollEvent { events: 0x1, data: timer_fd as u64 },
    ];

    let plan = lp.plan_dispatch(&events);
    assert_eq!(plan.len(), 4);

    let mut io_fired = 0;
    let mut event_fired = 0;
    let mut timer_fired = 0;
    let mut idle_fired = 0;
    for d in &plan {
        match d {
            Dispatch::Io { fd, rmask } => {
                assert_eq!(*fd, io_fd);
                assert_eq!(*rmask, 0x1);
                io_fired += 1;
            }
            Dispatch::Event { fd } => {
                assert_eq!(*fd, event_fd);
                event_fired += 1;
            }
            Dispatch::Timer { fd } => {
                assert_eq!(*fd, timer_fd);
                timer_fired += 1;
            }
            Dispatch::Signal { .. } => panic!("no signal source was registered"),
            Dispatch::Idle { id } => {
                assert_eq!(*id, idle);
                idle_fired += 1;
            }
        }
    }
    assert_eq!((io_fired, event_fired, timer_fired, idle_fired), (1, 1, 1, 1));

    // Kernel dispatch order is kept; idles drain at the end of the pass.
    assert!(matches!(plan[0], Dispatch::Io { .. }));
    assert!(matches!(plan[1], Dispatch::Event { .. }));
    assert!(matches!(plan[2], Dispatch::Timer { .. }));
    assert!(matches!(plan[3], Dispatch::Idle { .. }));
}

#[test]
fn test_disabled_idle_does_not_fire() {
    let mut lp = EventLoop::new();
    let idle = lp.add_idle(false);
    assert_eq!(lp.plan_dispatch(&Vec::new()).len(), 0);

    lp.enable_idle(idle, true).unwrap();
    let plan = lp.plan_dispatch(&Vec::new());
    assert_eq!(plan.len(), 1);
    assert_eq!(plan[0], Dispatch::Idle { id: idle });
}

#[test]
fn test_source_registry_rules() {
    let mut lp = EventLoop::new();
    lp.add_source(5, SourceKind::Io, 0x1).unwrap();
    // A descriptor already held reports the kernel's existing-entry error.
    assert_eq!(
        lp.add_source(5, SourceKind::Io, 0x1),
        Err(Error::Errno(pipewire_native::event_loop::EEXIST))
    );

    lp.update_source(5, 0x5).unwrap();
    assert_eq!(lp.find_source(5).unwrap().mask, 0x5);

    // An unknown cookie from the poll wait dispatches nothing.
    let stray = vec![PollEvent { events: 0x1, data: 99 }];
    assert_eq!(lp.plan_dispatch(&stray).len(), 0);

    let removed = lp.remove_source(5).unwrap();
    assert_eq!(removed.fd, 5);
    assert!(lp.find_source(5).is_none());
    assert!(lp.remove_source(5).is_err());
}

#[test]
fn test_undefined_mask_bits_are_refused() {
    assert_eq!(IO_IN | IO_OUT | IO_ERR | IO_HUP, IO_MASK);

    let mut lp = EventLoop::new();
    assert!(lp.add_source(7, SourceKind::Io, 0x2).is_err());
    assert!(lp.find_source(7).is_none());
    lp.add_source(7, SourceKind::Io, IO_IN | IO_HUP).unwrap();
    assert!(lp.update_source(7, 0x20).is_err());
    assert_eq!(lp.find_source(7).unwrap().mask, IO_IN | IO_HUP);
}

#[test]
fn test_loop_control_lifecycle() {
    let mut ctl = LoopControl::new();
    assert!(!ctl.check());
    assert!(ctl.leave().is_err());

    ctl.enter();
    ctl.enter();
    assert!(ctl.check());
    assert!(ctl.leave().is_ok());
    assert!(ctl.leave().is_ok());
    assert!(!ctl.check());

    assert!(ctl.lock().is_ok());
    assert!(ctl.lock().is_err());
    assert!(ctl.unlock().is_ok());
    assert!(ctl.unlock().is_err());

    ctl.signal(true);
    assert!(ctl.take_signal());
    assert!(!ctl.take_signal());
    assert!(ctl.accept().is_ok());
    assert!(ctl.accept().is_err());
}

#[test]
fn test_invoke_queue_drains_in_order() {
    let mut q = InvokeQueue::new();
    q.enqueue(1, vec![0xa], false);
    q.enqueue(2, vec![0xb], true);
    q.enqueue(3, vec![], false);
    assert_eq!(q.len(), 3);

    let items = q.drain();
    assert_eq!(q.len(), 0);
    assert_eq!(items.len(), 3);
    assert_eq!((items[0].seq, items[1].seq, items[2].seq), (1, 2, 3));
    assert_eq!(items[0].data, vec![0xa]);
    assert!(items[1].block);
}
