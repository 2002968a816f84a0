//! Event descriptors on a small stand-in for the system.

use macos_shims::darwin::{EAGAIN, FD_CLOEXEC, O_NONBLOCK};
use macos_shims::eventfd::{Draining, EventFd, EFD_CLOEXEC, EFD_NONBLOCK, EFD_SEMAPHORE};
use macos_shims::payload;
use macos_shims::sys::{Error, Machine, Progress, Reply, SysCall};
use std::collections::BTreeMap;

/// The status flags of a new socket.
const O_RDWR: i32 = 2;

struct Socket {
    status: i32,
    inbox: Vec<u8>,
    peer: usize,
}

/// Descriptors and stream sockets.
struct World {
    fds: BTreeMap<i32, (usize, i32)>,
    sockets: Vec<Socket>,
    next_fd: i32,
    /// How many more bytes the sockets take.
    room: usize,
    /// The call to fail, by its index, and the error number to fail it with.
    failure: Option<(usize, i32)>,
    log: Vec<SysCall>,
}

impl World {
    fn new() -> World {
        World {
            fds: BTreeMap::new(),
            sockets: Vec::new(),
            next_fd: 3,
            room: 1 << 16,
            failure: None,
            log: Vec::new(),
        }
    }

    fn open(&mut self, socket: usize) -> i32 {
        let fd = self.next_fd;
        self.next_fd += 1;
        self.fds.insert(fd, (socket, 0));
        fd
    }

    fn peer_open(&self, fd: i32) -> bool {
        let peer = self.sockets[self.fds[&fd].0].peer;
        self.fds.values().any(|descriptor| descriptor.0 == peer)
    }

    fn readable(&self, fd: i32) -> bool {
        !self.sockets[self.fds[&fd].0].inbox.is_empty() || !self.peer_open(fd)
    }

    fn read(&mut self, fd: i32) -> Reply {
        let ended = !self.peer_open(fd);
        let socket = &mut self.sockets[self.fds[&fd].0];
        if socket.inbox.is_empty() {
            return if ended { returned(0) } else { failed(EAGAIN) };
        }
        let count = socket.inbox.len().min(8);
        let mut reply = returned(count as i64);
        for (i, byte) in socket.inbox.drain(..count).enumerate() {
            reply.payload[i] = byte;
        }
        reply
    }

    fn perform(&mut self, call: SysCall) -> Reply {
        let index = self.log.len();
        self.log.push(call);
        if let Some((at, errno)) = self.failure {
            if at == index {
                return failed(errno);
            }
        }
        match call {
            SysCall::Socketpair => {
                let n = self.sockets.len();
                for peer in [n + 1, n] {
                    self.sockets.push(Socket { status: O_RDWR, inbox: Vec::new(), peer });
                }
                let mut reply = returned(0);
                reply.pair = (self.open(n), self.open(n + 1));
                reply
            }
            SysCall::GetStatusFlags { fd } => returned(self.sockets[self.fds[&fd].0].status as i64),
            SysCall::SetStatusFlags { fd, flags } => {
                let socket = self.fds[&fd].0;
                self.sockets[socket].status = flags;
                returned(0)
            }
            SysCall::GetDescriptorFlags { fd } => returned(self.fds[&fd].1 as i64),
            SysCall::SetDescriptorFlags { fd, flags } => {
                let socket = self.fds[&fd].0;
                self.fds.insert(fd, (socket, flags));
                returned(0)
            }
            SysCall::Write { fd, bytes } => {
                let count = bytes.len().min(self.room);
                if count == 0 {
                    return failed(EAGAIN);
                }
                self.room -= count;
                let peer = self.sockets[self.fds[&fd].0].peer;
                self.sockets[peer].inbox.extend_from_slice(&bytes[..count]);
                returned(count as i64)
            }
            SysCall::Read { fd } => {
                assert!(self.readable(fd) || self.nonblocking(fd), "this read waits forever");
                self.read(fd)
            }
            SysCall::ReadReady { fd } => self.read(fd),
            SysCall::Dup { fd } => {
                let socket = self.fds[&fd].0;
                returned(self.open(socket) as i64)
            }
            SysCall::Close { fd } => {
                assert!(self.fds.remove(&fd).is_some(), "closed twice");
                returned(0)
            }
            SysCall::Kqueue => unreachable!(),
        }
    }

    fn drive<M: Machine>(&mut self, mut progress: Progress<M, M::Out>) -> M::Out {
        loop {
            match progress {
                Progress::Done(out) => return out,
                Progress::Call(call, machine) => progress = machine.resume(self.perform(call)),
            }
        }
    }

    fn nonblocking(&self, fd: i32) -> bool {
        self.sockets[self.fds[&fd].0].status & O_NONBLOCK != 0
    }

    fn close_on_exec(&self, fd: i32) -> bool {
        self.fds[&fd].1 & FD_CLOEXEC != 0
    }
}

fn returned(rc: i64) -> Reply {
    Reply { rc, errno: 0, pair: (-1, -1), payload: [0; 8] }
}

fn failed(errno: i32) -> Reply {
    Reply { rc: -1, errno, pair: (-1, -1), payload: [0; 8] }
}

#[test]
fn write_then_read_returns_sum() {
    let mut world = World::new();
    let efd = world.drive(EventFd::new(EFD_NONBLOCK)).expect("create");
    world.drive(efd.write(3)).expect("write 3");
    world.drive(efd.write(5)).expect("write 5");
    assert_eq!(world.drive(efd.read()).expect("read"), 8);
}

#[test]
fn clone_shares_state() {
    let mut world = World::new();
    let efd = world.drive(EventFd::new(EFD_NONBLOCK)).expect("create");
    let clone = world.drive(efd.try_clone()).expect("clone");
    world.drive(efd.write(42)).expect("write");
    // The clone reads from a duplicate of the same read end, so it sees what the original
    // wrote.
    assert_eq!(world.drive(clone.read()).expect("read"), 42);
}

#[test]
fn read_clears_the_counter() {
    let mut world = World::new();
    let efd = world.drive(EventFd::new(EFD_NONBLOCK)).unwrap();
    assert_eq!(world.drive(efd.read()), Err(Error::Os(EAGAIN)));
    world.drive(efd.write(u64::MAX)).unwrap();
    assert_eq!(world.drive(efd.read()), Ok(u64::MAX));
    assert_eq!(world.drive(efd.read()), Err(Error::Os(EAGAIN)));
}

#[test]
fn the_counter_wraps_around() {
    let mut world = World::new();
    let efd = world.drive(EventFd::new(EFD_NONBLOCK)).unwrap();
    world.drive(efd.write(u64::MAX)).unwrap();
    world.drive(efd.write(7)).unwrap();
    assert_eq!(world.drive(efd.read()), Ok(6));
    // A sum of 0 is no value.
    world.drive(efd.write(u64::MAX)).unwrap();
    world.drive(efd.write(1)).unwrap();
    assert_eq!(world.drive(efd.read()), Err(Error::Os(EAGAIN)));
    world.drive(efd.write(0)).unwrap();
    assert_eq!(world.drive(efd.read()), Err(Error::Os(EAGAIN)));
}

#[test]
fn a_waiting_descriptor_returns_what_is_there() {
    let mut world = World::new();
    let efd = world.drive(EventFd::new(0)).unwrap();
    assert!(!world.nonblocking(efd.read_fd));
    world.drive(efd.write(4)).unwrap();
    world.drive(efd.write(6)).unwrap();
    assert_eq!(world.drive(efd.read()), Ok(10));
}

#[test]
fn write_sends_little_endian_bytes() {
    let mut world = World::new();
    let efd = world.drive(EventFd::new(0)).unwrap();
    world.drive(efd.write(0x0102_0304_0506_0708)).unwrap();
    assert_eq!(
        *world.log.last().unwrap(),
        SysCall::Write { fd: efd.write_fd, bytes: [8, 7, 6, 5, 4, 3, 2, 1] }
    );
    assert_eq!(payload::encode(0x0102_0304_0506_0708), 0x0102_0304_0506_0708u64.to_le_bytes());
    assert_eq!(payload::decode(&[8, 7, 6, 5, 4, 3, 2, 1]), 0x0102_0304_0506_0708);
    assert_eq!(payload::decode(&[0xff; 8]), u64::MAX);
    assert_eq!(payload::encode(u64::MAX), [0xff; 8]);
}

#[test]
fn write_reports_failures() {
    let mut world = World::new();
    let efd = world.drive(EventFd::new(EFD_NONBLOCK)).unwrap();
    world.room = 8 + 3;
    assert_eq!(world.drive(efd.write(1)), Ok(()));
    assert_eq!(world.drive(efd.write(2)), Err(Error::ShortWrite));
    assert_eq!(world.drive(efd.write(3)), Err(Error::Os(EAGAIN)));
    // The part of a payload ends the drain.
    assert_eq!(world.drive(efd.read()), Ok(1));
}

#[test]
fn read_stops_at_the_end_of_the_stream() {
    let start = Draining { fd: 3, total: 0 };
    assert!(matches!(start.resume(returned(0)), Progress::Done(Ok(0))));
    let later = Draining { fd: 3, total: 9 };
    assert!(matches!(later.resume(returned(0)), Progress::Done(Ok(9))));
    assert!(matches!(later.resume(failed(5)), Progress::Done(Ok(9))));
    assert!(matches!(start.resume(failed(5)), Progress::Done(Err(Error::Os(5)))));
}

#[test]
fn read_waits_only_while_the_sum_is_zero() {
    let carry = |v: u64| {
        let mut reply = returned(8);
        reply.payload = payload::encode(v);
        reply
    };
    let after = |total: u64, v: u64| match (Draining { fd: 3, total }).resume(carry(v)) {
        Progress::Call(call, machine) => (call, machine.fd, machine.total),
        Progress::Done(_) => panic!("the drain goes on"),
    };
    assert_eq!(after(0, 0), (SysCall::Read { fd: 3 }, 3, 0));
    assert_eq!(after(u64::MAX, 1), (SysCall::Read { fd: 3 }, 3, 0));
    assert_eq!(after(0, 5), (SysCall::ReadReady { fd: 3 }, 3, 5));
    assert_eq!(after(5, 0), (SysCall::ReadReady { fd: 3 }, 3, 5));
}

#[test]
fn a_released_end_runs_out() {
    let mut world = World::new();
    let efd = world.drive(EventFd::new(0)).unwrap();
    world.drive(efd.write(4)).unwrap();
    world.drive(efd.write(6)).unwrap();
    let fd = world.drive(efd.into_raw_fd());
    let reader = world.drive(EventFd::from_fd(fd));
    assert_eq!(world.drive(reader.read()), Ok(10));
    assert_eq!(world.drive(reader.read()), Ok(0));
}

#[test]
fn a_clone_keeps_the_stream_open() {
    let mut world = World::new();
    let efd = world.drive(EventFd::new(EFD_NONBLOCK)).unwrap();
    let clone = world.drive(efd.try_clone()).unwrap();
    let fd = world.drive(efd.into_raw_fd());
    let reader = world.drive(EventFd::from_fd(fd));
    assert_eq!(world.drive(reader.read()), Err(Error::Os(EAGAIN)));
    world.drive(clone.write(2)).unwrap();
    assert_eq!(world.drive(reader.read()), Ok(2));
}

#[test]
fn the_read_end_is_readable_until_it_is_read() {
    let mut world = World::new();
    let efd = world.drive(EventFd::new(0)).unwrap();
    assert!(!world.readable(efd.as_raw_fd()));
    world.drive(efd.write(1)).unwrap();
    assert!(world.readable(efd.as_raw_fd()));
    world.drive(efd.write(2)).unwrap();
    assert!(world.readable(efd.as_raw_fd()));
    assert_eq!(world.drive(efd.read()), Ok(3));
    assert!(!world.readable(efd.as_raw_fd()));
}

#[test]
fn new_honors_flags() {
    for flag in 0..8 {
        let mut world = World::new();
        let efd = world.drive(EventFd::new(flag)).unwrap();
        for fd in [efd.read_fd, efd.write_fd] {
            assert_eq!(world.nonblocking(fd), flag & EFD_NONBLOCK != 0);
            assert_eq!(world.close_on_exec(fd), flag & EFD_CLOEXEC != 0);
            // What was set before stays set.
            assert!(world.sockets[world.fds[&fd].0].status & O_RDWR != 0);
        }
        assert_eq!(efd.as_raw_fd(), efd.read_fd);
    }
    let mut plain = World::new();
    plain.drive(EventFd::new(0)).unwrap();
    let mut semaphore = World::new();
    semaphore.drive(EventFd::new(EFD_SEMAPHORE)).unwrap();
    assert_eq!(plain.log, semaphore.log);
}

#[test]
fn new_sets_flags_in_order() {
    let mut world = World::new();
    world.drive(EventFd::new(EFD_NONBLOCK | EFD_CLOEXEC)).unwrap();
    assert_eq!(
        world.log,
        vec![
            SysCall::Socketpair,
            SysCall::GetStatusFlags { fd: 3 },
            SysCall::SetStatusFlags { fd: 3, flags: O_RDWR | O_NONBLOCK },
            SysCall::GetStatusFlags { fd: 4 },
            SysCall::SetStatusFlags { fd: 4, flags: O_RDWR | O_NONBLOCK },
            SysCall::GetDescriptorFlags { fd: 3 },
            SysCall::SetDescriptorFlags { fd: 3, flags: FD_CLOEXEC },
            SysCall::GetDescriptorFlags { fd: 4 },
            SysCall::SetDescriptorFlags { fd: 4, flags: FD_CLOEXEC },
        ]
    );
}

#[test]
fn new_leaves_nothing_open_on_failure() {
    for at in 0..9 {
        let mut world = World::new();
        world.failure = Some((at, 24));
        let result = world.drive(EventFd::new(EFD_NONBLOCK | EFD_CLOEXEC));
        assert_eq!(result, Err(Error::Os(24)));
        assert!(world.fds.is_empty());
    }
}

#[test]
fn new_fails_on_any_return_value_but_zero() {
    match EventFd::new(0) {
        Progress::Call(SysCall::Socketpair, machine) => {
            let reply = Reply { rc: 1, errno: 12, pair: (3, 4), payload: [0; 8] };
            assert!(matches!(machine.resume(reply), Progress::Done(Err(Error::Os(12)))));
        }
        _ => panic!("no socket pair"),
    }
}

#[test]
fn try_clone_leaves_nothing_open_on_failure() {
    for at in 0..2 {
        let mut world = World::new();
        let efd = world.drive(EventFd::new(0)).unwrap();
        let before: Vec<i32> = world.fds.keys().copied().collect();
        world.failure = Some((world.log.len() + at, 24));
        assert_eq!(world.drive(efd.try_clone()), Err(Error::Os(24)));
        let after: Vec<i32> = world.fds.keys().copied().collect();
        assert_eq!(before, after);
    }
}

#[test]
fn close_closes_each_end_once() {
    let mut world = World::new();
    let efd = world.drive(EventFd::new(0)).unwrap();
    world.drive(efd.close());
    assert!(world.fds.is_empty());

    let mut world = World::new();
    let pair = world.drive(EventFd::new(0)).unwrap();
    let single = EventFd { read_fd: pair.read_fd, write_fd: pair.read_fd };
    world.drive(single.close());
    assert_eq!(world.log.last(), Some(&SysCall::Close { fd: pair.read_fd }));
    assert_eq!(world.fds.len(), 1);
}

#[test]
fn into_raw_fd_keeps_the_read_end() {
    let mut world = World::new();
    let efd = world.drive(EventFd::new(0)).unwrap();
    let read_fd = efd.read_fd;
    let fd = world.drive(efd.into_raw_fd());
    assert_eq!(fd, read_fd);
    assert_eq!(world.fds.keys().copied().collect::<Vec<i32>>(), vec![read_fd]);

    let calls = world.log.len();
    let single = EventFd { read_fd, write_fd: read_fd };
    assert_eq!(world.drive(single.into_raw_fd()), read_fd);
    assert_eq!(world.log.len(), calls);
}

#[test]
fn from_fd_uses_one_end_both_ways() {
    let mut world = World::new();
    let pair = world.drive(EventFd::new(EFD_NONBLOCK)).unwrap();
    let (a, b) = (pair.read_fd, pair.write_fd);
    let here = world.drive(EventFd::from_fd(a));
    let there = world.drive(EventFd::from_fd(b));
    assert_eq!(here.read_fd, a);
    assert!(here.write_fd != a);
    world.drive(here.write(11)).unwrap();
    assert_eq!(world.drive(there.read()), Ok(11));
    world.drive(there.write(12)).unwrap();
    assert_eq!(world.drive(here.read()), Ok(12));

    world.failure = Some((world.log.len(), 24));
    let lone = world.drive(EventFd::from_fd(a));
    assert_eq!(lone, EventFd { read_fd: a, write_fd: a });
}
