//! Epoll's operations on a small stand-in for a kqueue.

use macos_shims::darwin::{
    EINTR, ENOENT, EVFILT_READ, EVFILT_WRITE, EV_ADD, EV_CLEAR, EV_DELETE, EV_EOF, EV_ERROR,
    EV_ONESHOT, EV_RECEIPT,
};
use macos_shims::epoll::{decode, ControlOperation, Epoll, EpollEvent, MacosEpollEvent};
use macos_shims::event_set::EventSet;
use macos_shims::kqueue::{empty_kevent, make_kevent, Kevent, KeventCall, KeventProgress, KeventReply, Timespec};
use macos_shims::sys::{Error, Machine, Progress, Reply, SysCall};
use std::collections::{BTreeMap, BTreeSet};

/// A kqueue, and the descriptors that are readable.
struct Queue {
    registrations: BTreeMap<(usize, i16), Kevent>,
    readable: BTreeSet<usize>,
}

impl Queue {
    fn new() -> Queue {
        Queue { registrations: BTreeMap::new(), readable: BTreeSet::new() }
    }

    fn submit(&mut self, call: &KeventCall) -> KeventReply {
        let mut events: Vec<Kevent> = Vec::new();
        for change in &call.changes {
            let at = (change.ident, change.filter);
            let mut receipt = *change;
            receipt.flags |= EV_ERROR;
            if change.flags & EV_DELETE != 0 {
                if self.registrations.remove(&at).is_none() {
                    receipt.data = ENOENT as isize;
                }
            } else {
                self.registrations.insert(at, *change);
            }
            events.push(receipt);
        }
        if call.changes.is_empty() {
            for (at, registration) in &self.registrations {
                if at.1 == EVFILT_READ && self.readable.contains(&at.0) {
                    events.push(*registration);
                }
            }
            events.truncate(call.capacity as usize);
        }
        KeventReply { rc: events.len() as i32, errno: 0, events }
    }

    fn ctl(
        &mut self,
        epoll: &Epoll,
        operation: ControlOperation,
        fd: i32,
        event: EpollEvent,
    ) -> Result<(), Error> {
        match epoll.ctl(operation, fd, event) {
            KeventProgress::Done(result) => result,
            KeventProgress::Call(call) => Epoll::ctl_result(operation, &self.submit(&call)),
        }
    }

    fn wait(
        &mut self,
        epoll: &Epoll,
        timeout: i32,
        events: &mut [EpollEvent],
    ) -> Result<usize, Error> {
        match epoll.wait(timeout, events.len()) {
            KeventProgress::Done(result) => result,
            KeventProgress::Call(call) => Epoll::wait_result(&self.submit(&call), events),
        }
    }
}

/// The call that an operation asks for.
fn call<T>(progress: KeventProgress<T>) -> Option<KeventCall> {
    match progress {
        KeventProgress::Call(call) => Some(call),
        KeventProgress::Done(_) => None,
    }
}

fn entry(filter: i16, flags: u16, data: isize, udata: u64) -> Kevent {
    Kevent { ident: 5, filter, flags, fflags: 0, data, udata }
}

#[test]
fn basic_register_and_wait() {
    let b = 5;
    let epoll = Epoll { kq: 3 };
    let mut queue = Queue::new();
    queue
        .ctl(&epoll, ControlOperation::Add, b, EpollEvent::new(EventSet::IN(), 0xabcd))
        .unwrap();

    // Nothing pending yet.
    let mut events = vec![EpollEvent::default(); 4];
    assert_eq!(queue.wait(&epoll, 10, &mut events).unwrap(), 0);

    // Make `b` readable.
    queue.readable.insert(b as usize);

    let n = queue.wait(&epoll, 100, &mut events).unwrap();
    assert_eq!(n, 1);
    assert!(events[0].event_set().contains(EventSet::IN()));
    assert_eq!(events[0].data(), 0xabcd);
}

#[test]
fn delete_unregisters() {
    let b = 5;
    let epoll = Epoll { kq: 3 };
    let mut queue = Queue::new();
    queue
        .ctl(&epoll, ControlOperation::Add, b, EpollEvent::new(EventSet::IN(), 0))
        .unwrap();
    queue
        .ctl(&epoll, ControlOperation::Delete, b, EpollEvent::new(EventSet::IN(), 0))
        .unwrap();
    assert!(queue.registrations.is_empty());
}

#[test]
fn cookies_come_back() {
    let epoll = Epoll { kq: 3 };
    for cookie in [0, 1, u64::MAX] {
        let mut queue = Queue::new();
        queue.readable.insert(5);
        let event = EpollEvent::new(EventSet::IN() | EventSet::OUT(), cookie);
        queue.ctl(&epoll, ControlOperation::Add, 5, event).unwrap();
        let mut events = vec![EpollEvent::new(EventSet::empty(), 7); 4];
        assert_eq!(queue.wait(&epoll, 0, &mut events), Ok(1));
        assert_eq!(events[0].data(), cookie);
        assert!(events[0].event_set() == EventSet::IN());
        assert_eq!(events[1].data(), 7);
    }
}

#[test]
fn nothing_is_delivered_after_delete() {
    let epoll = Epoll { kq: 3 };
    let mut queue = Queue::new();
    queue.readable.insert(5);
    queue.readable.insert(6);
    let event = |cookie: u64| EpollEvent::new(EventSet::IN() | EventSet::OUT(), cookie);
    queue.ctl(&epoll, ControlOperation::Add, 5, event(50)).unwrap();
    queue.ctl(&epoll, ControlOperation::Add, 6, event(60)).unwrap();
    queue.ctl(&epoll, ControlOperation::Modify, 5, event(51)).unwrap();
    let mut events = vec![EpollEvent::default(); 4];
    assert_eq!(queue.wait(&epoll, 0, &mut events), Ok(2));
    assert_eq!((events[0].data(), events[1].data()), (51, 60));
    queue.ctl(&epoll, ControlOperation::Delete, 5, EpollEvent::default()).unwrap();
    assert_eq!(queue.wait(&epoll, 0, &mut events), Ok(1));
    assert_eq!(events[0].data(), 60);
}

#[test]
fn delete_of_nothing_succeeds() {
    let epoll = Epoll { kq: 3 };
    let mut queue = Queue::new();
    let event = EpollEvent::default();
    assert_eq!(queue.ctl(&epoll, ControlOperation::Delete, 5, event), Ok(()));
}

#[test]
fn delete_leaves_others() {
    let epoll = Epoll { kq: 3 };
    let mut queue = Queue::new();
    let event = EpollEvent::new(EventSet::IN() | EventSet::OUT(), 1);
    queue.ctl(&epoll, ControlOperation::Add, 5, event).unwrap();
    queue.ctl(&epoll, ControlOperation::Add, 6, event).unwrap();
    queue.ctl(&epoll, ControlOperation::Delete, 5, event).unwrap();
    let left: Vec<(usize, i16)> = queue.registrations.keys().copied().collect();
    assert_eq!(left, vec![(6, EVFILT_WRITE), (6, EVFILT_READ)]);
}

#[test]
fn new_checks_the_descriptor() {
    let reply = |rc: i64| Reply { rc, errno: 24, pair: (0, 0), payload: [0; 8] };
    for (rc, expected) in [(7, Ok(7)), (0, Ok(0)), (-1, Err(Error::Os(24)))] {
        match Epoll::new() {
            Progress::Call(SysCall::Kqueue, machine) => match machine.resume(reply(rc)) {
                Progress::Done(result) => assert_eq!(result.map(|e| e.as_raw_fd()), expected),
                Progress::Call(..) => panic!("one call is enough"),
            },
            _ => panic!("no kqueue"),
        }
    }
}

#[test]
fn close_closes_the_queue() {
    match (Epoll { kq: 9 }).close() {
        Progress::Call(SysCall::Close { fd }, machine) => {
            assert_eq!(fd, 9);
            let reply = Reply { rc: -1, errno: 9, pair: (0, 0), payload: [0; 8] };
            assert!(matches!(machine.resume(reply), Progress::Done(())));
        }
        _ => panic!("not closed"),
    }
}

#[test]
fn ctl_translates_flags() {
    let epoll = Epoll { kq: 3 };
    let set = EventSet::IN() | EventSet::OUT() | EventSet::EDGE_TRIGGERED() | EventSet::ONE_SHOT();
    let made = call(epoll.ctl(ControlOperation::Add, 5, EpollEvent::new(set, 77))).unwrap();
    let flags = EV_ADD | EV_RECEIPT | EV_CLEAR | EV_ONESHOT;
    assert_eq!(made.kq, 3);
    assert_eq!(made.capacity, 2);
    assert_eq!(made.timeout, None);
    assert_eq!(
        made.changes,
        vec![make_kevent(5, EVFILT_READ, flags, 77), make_kevent(5, EVFILT_WRITE, flags, 77)]
    );

    let event = EpollEvent::new(EventSet::OUT(), 78);
    let made = call(epoll.ctl(ControlOperation::Modify, 5, event)).unwrap();
    assert_eq!(made.changes, vec![make_kevent(5, EVFILT_WRITE, EV_ADD | EV_RECEIPT, 78)]);

    let made = call(epoll.ctl(ControlOperation::Delete, 5, EpollEvent::new(set, 79))).unwrap();
    let flags = EV_DELETE | EV_RECEIPT;
    assert_eq!(
        made.changes,
        vec![make_kevent(5, EVFILT_READ, flags, 79), make_kevent(5, EVFILT_WRITE, flags, 79)]
    );
}

#[test]
fn ctl_modify_is_add() {
    let epoll = Epoll { kq: 3 };
    for bits in 0..8u32 {
        let event = EpollEvent::new(EventSet::from_bits_truncate(bits | 0x8000_0000), 1);
        let add = call(epoll.ctl(ControlOperation::Add, 5, event)).map(|c| c.changes);
        let modify = call(epoll.ctl(ControlOperation::Modify, 5, event)).map(|c| c.changes);
        assert_eq!(add, modify);
    }
}

#[test]
fn ctl_without_filters_makes_no_call() {
    let epoll = Epoll { kq: 3 };
    let event = EpollEvent::new(EventSet::PRIORITY() | EventSet::EDGE_TRIGGERED(), 1);
    for operation in [ControlOperation::Add, ControlOperation::Modify] {
        for e in [event, EpollEvent::default()] {
            assert!(matches!(epoll.ctl(operation, -1, e), KeventProgress::Done(Ok(()))));
        }
    }
    assert!(call(epoll.ctl(ControlOperation::Delete, 5, event)).is_some());
}

#[test]
fn ctl_result_takes_the_first_error() {
    let ok = entry(EVFILT_READ, EV_ERROR, 0, 0);
    let bad = entry(EVFILT_READ, EV_ERROR, 9, 0);
    let worse = entry(EVFILT_WRITE, EV_ERROR, 22, 0);
    let missing = entry(EVFILT_WRITE, EV_ERROR, ENOENT as isize, 0);
    // Without the error flag the data is no error.
    let unflagged = entry(EVFILT_READ, EV_ADD, 9, 0);
    let result = |operation, rc, events: Vec<Kevent>| {
        Epoll::ctl_result(operation, &KeventReply { rc, errno: 14, events })
    };
    let add = ControlOperation::Add;
    let delete = ControlOperation::Delete;
    assert_eq!(result(add, 2, vec![ok, ok]), Ok(()));
    assert_eq!(result(add, 2, vec![unflagged, ok]), Ok(()));
    assert_eq!(result(add, 2, vec![ok, bad]), Err(Error::Os(9)));
    assert_eq!(result(add, 2, vec![bad, worse]), Err(Error::Os(9)));
    assert_eq!(result(add, 2, vec![missing, worse]), Err(Error::Os(ENOENT)));
    assert_eq!(result(delete, 2, vec![missing, ok]), Ok(()));
    assert_eq!(result(delete, 2, vec![missing, missing]), Ok(()));
    assert_eq!(result(delete, 2, vec![missing, worse]), Err(Error::Os(22)));
    assert_eq!(result(delete, -1, vec![ok, ok]), Err(Error::Os(14)));
}

#[test]
fn wait_translates_the_timeout() {
    let epoll = Epoll { kq: 3 };
    let timeout = |ms: i32| call(epoll.wait(ms, 4)).unwrap().timeout;
    assert_eq!(timeout(-1), None);
    assert_eq!(timeout(i32::MIN), None);
    assert_eq!(timeout(0), Some(Timespec { tv_sec: 0, tv_nsec: 0 }));
    assert_eq!(timeout(1), Some(Timespec { tv_sec: 0, tv_nsec: 1_000_000 }));
    assert_eq!(timeout(2345), Some(Timespec { tv_sec: 2, tv_nsec: 345_000_000 }));
    assert_eq!(
        timeout(i32::MAX),
        Some(Timespec { tv_sec: 2_147_483, tv_nsec: 647_000_000 })
    );
    let made = call(epoll.wait(5, 4)).unwrap();
    assert_eq!((made.kq, made.capacity, made.changes.len()), (3, 4, 0));
}

#[test]
fn wait_without_room_delivers_nothing() {
    let epoll = Epoll { kq: 3 };
    assert!(matches!(epoll.wait(100, 0), KeventProgress::Done(Ok(0))));
    assert!(matches!(epoll.wait(-1, 0), KeventProgress::Done(Ok(0))));
}

#[test]
fn wait_result_fills_the_front() {
    let mut events = vec![EpollEvent::new(EventSet::PRIORITY(), 99); 3];
    let reply = KeventReply {
        rc: 2,
        errno: 0,
        events: vec![
            entry(EVFILT_READ, EV_EOF, 0, 1),
            entry(EVFILT_WRITE, EV_ERROR, 32, 2),
            empty_kevent(),
        ],
    };
    assert_eq!(Epoll::wait_result(&reply, &mut events), Ok(2));
    assert!(events[0].event_set() == EventSet::IN() | EventSet::HANG_UP());
    assert_eq!(events[0].data(), 1);
    assert!(events[1].event_set() == EventSet::OUT() | EventSet::ERROR());
    assert_eq!(events[1].data(), 2);
    assert!(events[2].event_set() == EventSet::PRIORITY());
    assert_eq!(events[2].data(), 99);
}

#[test]
fn wait_result_reports_failures() {
    let mut events = vec![EpollEvent::new(EventSet::PRIORITY(), 99); 1];
    let reply = |errno: i32| KeventReply { rc: -1, errno, events: vec![empty_kevent()] };
    assert_eq!(Epoll::wait_result(&reply(EINTR), &mut events), Ok(0));
    assert_eq!(Epoll::wait_result(&reply(9), &mut events), Err(Error::Os(9)));
    assert_eq!(events[0].data(), 99);
}

#[test]
fn decode_covers_all_reports() {
    let bits = |filter, flags, data| decode(&entry(filter, flags, data, 0)).events();
    assert_eq!(bits(EVFILT_READ, 0, 0), 0x01);
    assert_eq!(bits(EVFILT_WRITE, 0, 0), 0x04);
    assert_eq!(bits(-10, 0, 0), 0x00);
    assert_eq!(bits(EVFILT_READ, EV_ERROR, 0), 0x01);
    assert_eq!(bits(EVFILT_READ, 0, 5), 0x01);
    assert_eq!(bits(EVFILT_READ, EV_ERROR | EV_EOF, 5), 0x19);
}

#[test]
fn make_kevent_extends_the_sign() {
    assert_eq!(make_kevent(-1, EVFILT_READ, EV_ADD, 0).ident, usize::MAX);
    let made = make_kevent(7, EVFILT_WRITE, EV_ADD, 8);
    assert_eq!(
        made,
        Kevent { ident: 7, filter: EVFILT_WRITE, flags: EV_ADD, fflags: 0, data: 0, udata: 8 }
    );
}

#[test]
fn events_keep_what_they_are_made_of() {
    let set = EventSet::IN() | EventSet::ONE_SHOT();
    let event = EpollEvent::new(set, 0xffff_ffff_0000_0007);
    assert_eq!(event.events(), 0x4000_0001);
    assert!(event.event_set() == set);
    assert_eq!(event.data(), 0xffff_ffff_0000_0007);
    assert_eq!(event.fd(), 7);
    assert_eq!(EpollEvent::new(set, u64::MAX).fd(), -1);
    // The fields show through.
    assert_eq!(event.events, 0x4000_0001);
    assert_eq!(event.u64, 0xffff_ffff_0000_0007);
    let default = EpollEvent::default();
    assert_eq!((default.events(), default.data()), (0, 0));
}

#[test]
fn events_in_text() {
    for (events, data) in [(0u32, 0u64), (1, 10), (0x4000_0001, u64::MAX), (E_ALL, 4_096)] {
        let raw = MacosEpollEvent { events, u64: data };
        assert_eq!(
            raw.to_debug_string(),
            format!("MacosEpollEvent {{ events: {:#x}, u64: {} }}", events, data)
        );
        let event = EpollEvent::new(EventSet::from_bits_truncate(events), data);
        assert_eq!(
            event.to_debug_string(),
            format!("{{ events: {}, data: {} }}", events, data)
        );
    }
}

const E_ALL: u32 = 0xf000_201f;

#[test]
fn operations_have_numbers() {
    assert_eq!(ControlOperation::Add.code(), 1);
    assert_eq!(ControlOperation::Modify.code(), 2);
    assert_eq!(ControlOperation::Delete.code(), 3);
}
