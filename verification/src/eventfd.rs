//! Linux's `eventfd(2)` on top of a socket pair.
//!
//! An event descriptor is a counter behind a descriptor that one can poll. Here it is a
//! connected pair of stream sockets. Adding to the counter sends the increment, as eight
//! bytes, into the write end; that makes the read end readable. Reading the counter drains
//! all increments that have arrived at the read end and sums them up. The read end is the
//! descriptor to poll, or to pass to another process.
//!
//! A socket pair and no pipe, because both ends of it carry data both ways, as an event
//! descriptor does: what `dup` makes of either end is a full event descriptor again.
//!
//! Every operation is a [`Machine`]; see [`crate::sys`].

use crate::darwin::{FD_CLOEXEC, O_NONBLOCK};
use crate::payload;
use crate::sys::{Closing, Error, Machine, Progress, Reply, SysCall};
use vstd::prelude::*;

verus! {

/// Flag of [`EventFd::new`]: operations do not wait.
pub const EFD_NONBLOCK: i32 = 1;

/// Flag of [`EventFd::new`]: the descriptors are closed by `exec`.
pub const EFD_CLOEXEC: i32 = 2;

/// Flag of [`EventFd::new`]: semaphore mode. It is accepted and has no effect.
pub const EFD_SEMAPHORE: i32 = 4;

/// An event descriptor: the two ends of a socket pair. They may be the same descriptor.
#[derive(Debug, PartialEq, Eq)]
pub struct EventFd {
    /// The end that increments arrive at.
    pub read_fd: i32,
    /// The end that increments are sent into.
    pub write_fd: i32,
}

/// A flag that can be set on a descriptor.
#[derive(Clone, Copy, Debug, PartialEq, Eq)]
pub enum Setting {
    /// Calls on the descriptor do not wait.
    Nonblock,
    /// The descriptor is closed by `exec`.
    Cloexec,
}

/// A flag to set, and the descriptor to set it on.
#[derive(Clone, Copy, Debug, PartialEq, Eq)]
pub struct Adjustment {
    /// The flag.
    pub setting: Setting,
    /// The descriptor.
    pub fd: i32,
}

/// `setting` on both ends.
pub open spec fn both_ends(efd: EventFd, setting: Setting) -> Seq<Adjustment> {
    seq![Adjustment { setting, fd: efd.read_fd }, Adjustment { setting, fd: efd.write_fd }]
}

/// What the flags of [`EventFd::new`] ask for, in the order in which it is done.
pub open spec fn adjustments(flag: i32, efd: EventFd) -> Seq<Adjustment> {
    (if flag & EFD_NONBLOCK != 0 {
        both_ends(efd, Setting::Nonblock)
    } else {
        seq![]
    }) + (if flag & EFD_CLOEXEC != 0 {
        both_ends(efd, Setting::Cloexec)
    } else {
        seq![]
    })
}

fn adjustment(flag: i32, efd: &EventFd, index: usize) -> (a: Option<Adjustment>)
    ensures
        a == if index < adjustments(flag, *efd).len() {
            Some(adjustments(flag, *efd)[index as int])
        } else {
            None
        },
{
    let mut at: usize = index;
    let mut setting: Setting = Setting::Nonblock;
    if flag & EFD_NONBLOCK == 0 || index >= 2 {
        if flag & EFD_CLOEXEC == 0 {
            return None;
        }
        setting = Setting::Cloexec;
        if flag & EFD_NONBLOCK != 0 {
            at = index - 2;
        }
    }
    if at == 0 {
        Some(Adjustment { setting, fd: efd.read_fd })
    } else if at == 1 {
        Some(Adjustment { setting, fd: efd.write_fd })
    } else {
        None
    }
}

impl Adjustment {
    /// The call that asks for the flags that are set now.
    pub open spec fn query_spec(self) -> SysCall {
        match self.setting {
            Setting::Nonblock => SysCall::GetStatusFlags { fd: self.fd },
            Setting::Cloexec => SysCall::GetDescriptorFlags { fd: self.fd },
        }
    }

    /// The call that sets the flag beside those that are set now.
    pub open spec fn apply_spec(self, now: i32) -> SysCall {
        match self.setting {
            Setting::Nonblock => SysCall::SetStatusFlags { fd: self.fd, flags: now | O_NONBLOCK },
            Setting::Cloexec => SysCall::SetDescriptorFlags { fd: self.fd, flags: now | FD_CLOEXEC },
        }
    }

    fn query(self) -> (call: SysCall)
        ensures
            call == self.query_spec(),
    {
        match self.setting {
            Setting::Nonblock => SysCall::GetStatusFlags { fd: self.fd },
            Setting::Cloexec => SysCall::GetDescriptorFlags { fd: self.fd },
        }
    }

    fn apply(self, now: i32) -> (call: SysCall)
        ensures
            call == self.apply_spec(now),
    {
        match self.setting {
            Setting::Nonblock => SysCall::SetStatusFlags { fd: self.fd, flags: now | O_NONBLOCK },
            Setting::Cloexec => SysCall::SetDescriptorFlags { fd: self.fd, flags: now | FD_CLOEXEC },
        }
    }
}

/// The creation of an [`EventFd`].
#[derive(Debug)]
pub enum Creating {
    /// Waits for the socket pair.
    Pairing {
        /// The flags that were asked for.
        flag: i32,
    },
    /// Waits for the flags that are set now where `now` is to be made.
    Querying {
        /// The flags that were asked for.
        flag: i32,
        /// The event descriptor so far.
        efd: EventFd,
        /// The adjustment that is being made.
        now: Adjustment,
        /// The index of the one after it.
        following: usize,
    },
    /// Waits until `now` is made.
    Applying {
        /// The flags that were asked for.
        flag: i32,
        /// The event descriptor so far.
        efd: EventFd,
        /// The adjustment that is being made.
        now: Adjustment,
        /// The index of the one after it.
        following: usize,
    },
    /// Waits until an end is closed, after a failure.
    Abandoning {
        /// The end that is still to be closed.
        rest: Option<i32>,
        /// The error number of the failure.
        errno: i32,
    },
}

/// The end that remains to be closed once the read end is: the write end, unless they are
/// the same descriptor.
pub open spec fn other_end(efd: EventFd) -> Option<i32> {
    if efd.write_fd != efd.read_fd {
        Some(efd.write_fd)
    } else {
        None
    }
}

fn end_after_read(efd: &EventFd) -> (rest: Option<i32>)
    ensures
        rest == other_end(*efd),
{
    if efd.write_fd != efd.read_fd {
        Some(efd.write_fd)
    } else {
        None
    }
}

impl Creating {
    /// Goes on with the adjustment at `index`, or ends if there is none.
    pub open spec fn configure_spec(flag: i32, efd: EventFd, index: int) -> Progress<
        Creating,
        Result<EventFd, Error>,
    > {
        let todo = adjustments(flag, efd);
        if 0 <= index < todo.len() {
            Progress::Call(
                todo[index].query_spec(),
                Creating::Querying { flag, efd, now: todo[index], following: (index + 1) as usize },
            )
        } else {
            Progress::Done(Ok(efd))
        }
    }

    /// Closes the ends and fails.
    pub open spec fn abandon_spec(efd: EventFd, errno: i32) -> Progress<
        Creating,
        Result<EventFd, Error>,
    > {
        Progress::Call(
            SysCall::Close { fd: efd.read_fd },
            Creating::Abandoning { rest: other_end(efd), errno },
        )
    }

    fn configure(flag: i32, efd: EventFd, index: usize) -> (progress: Progress<
        Creating,
        Result<EventFd, Error>,
    >)
        ensures
            progress == Creating::configure_spec(flag, efd, index as int),
    {
        match adjustment(flag, &efd, index) {
            Some(now) => Progress::Call(
                now.query(),
                Creating::Querying { flag, efd, now, following: index + 1 },
            ),
            None => Progress::Done(Ok(efd)),
        }
    }

    fn abandon(efd: EventFd, errno: i32) -> (progress: Progress<Creating, Result<EventFd, Error>>)
        ensures
            progress == Creating::abandon_spec(efd, errno),
    {
        let rest: Option<i32> = end_after_read(&efd);
        Progress::Call(SysCall::Close { fd: efd.read_fd }, Creating::Abandoning { rest, errno })
    }
}

impl Machine for Creating {
    type Out = Result<EventFd, Error>;

    open spec fn next(self, reply: Reply) -> Progress<Creating, Result<EventFd, Error>> {
        match self {
            Creating::Pairing { flag } => if reply.rc != 0 {
                Progress::Done(Err(Error::Os(reply.errno)))
            } else {
                Creating::configure_spec(
                    flag,
                    EventFd { read_fd: reply.pair.0, write_fd: reply.pair.1 },
                    0,
                )
            },
            Creating::Querying { flag, efd, now, following } => if reply.rc < 0 {
                Creating::abandon_spec(efd, reply.errno)
            } else {
                Progress::Call(
                    now.apply_spec(reply.rc as i32),
                    Creating::Applying { flag, efd, now, following },
                )
            },
            Creating::Applying { flag, efd, now: _, following } => if reply.rc < 0 {
                Creating::abandon_spec(efd, reply.errno)
            } else {
                Creating::configure_spec(flag, efd, following as int)
            },
            Creating::Abandoning { rest: Some(fd), errno } => Progress::Call(
                SysCall::Close { fd },
                Creating::Abandoning { rest: None, errno },
            ),
            Creating::Abandoning { rest: None, errno } => Progress::Done(Err(Error::Os(errno))),
        }
    }

    fn resume(self, reply: Reply) -> (progress: Progress<Creating, Result<EventFd, Error>>) {
        match self {
            Creating::Pairing { flag } => {
                if reply.rc != 0 {
                    Progress::Done(Err(Error::Os(reply.errno)))
                } else {
                    let efd = EventFd { read_fd: reply.pair.0, write_fd: reply.pair.1 };
                    Creating::configure(flag, efd, 0)
                }
            },
            Creating::Querying { flag, efd, now, following } => {
                if reply.rc < 0 {
                    Creating::abandon(efd, reply.errno)
                } else {
                    Progress::Call(
                        now.apply(reply.rc as i32),
                        Creating::Applying { flag, efd, now, following },
                    )
                }
            },
            Creating::Applying { flag, efd, now: _, following } => {
                if reply.rc < 0 {
                    Creating::abandon(efd, reply.errno)
                } else {
                    Creating::configure(flag, efd, following)
                }
            },
            Creating::Abandoning { rest: Some(fd), errno } => {
                Progress::Call(SysCall::Close { fd }, Creating::Abandoning { rest: None, errno })
            },
            Creating::Abandoning { rest: None, errno } => Progress::Done(Err(Error::Os(errno))),
        }
    }
}

/// An addition to the counter; it waits until the increment is sent.
#[derive(Clone, Copy, Debug)]
pub struct Writing;

impl Machine for Writing {
    type Out = Result<(), Error>;

    open spec fn next(self, reply: Reply) -> Progress<Writing, Result<(), Error>> {
        Progress::Done(
            if reply.rc < 0 {
                Err(Error::Os(reply.errno))
            } else if reply.rc != 8 {
                Err(Error::ShortWrite)
            } else {
                Ok(())
            },
        )
    }

    fn resume(self, reply: Reply) -> (progress: Progress<Writing, Result<(), Error>>) {
        if reply.rc < 0 {
            Progress::Done(Err(Error::Os(reply.errno)))
        } else if reply.rc != 8 {
            Progress::Done(Err(Error::ShortWrite))
        } else {
            Progress::Done(Ok(()))
        }
    }
}

/// A drain of the counter; it waits for the next increment.
#[derive(Clone, Copy, Debug)]
pub struct Draining {
    /// The read end.
    pub fd: i32,
    /// The sum of the increments so far, modulo 2 to the 64.
    pub total: u64,
}

/// The sum of two counter values; the counter wraps around.
pub open spec fn wrapping_sum(a: int, b: int) -> u64 {
    ((a + b) % 0x1_0000_0000_0000_0000) as u64
}

/// The call for the next increment. Once there is a sum to return, it does not wait.
pub open spec fn next_read(fd: i32, total: u64) -> SysCall {
    if total == 0 {
        SysCall::Read { fd }
    } else {
        SysCall::ReadReady { fd }
    }
}

impl Machine for Draining {
    type Out = Result<u64, Error>;

    open spec fn next(self, reply: Reply) -> Progress<Draining, Result<u64, Error>> {
        if reply.rc == 8 {
            let total = wrapping_sum(
                self.total as int,
                payload::number(reply.payload@) as int,
            );
            Progress::Call(next_read(self.fd, total), Draining { fd: self.fd, total })
        } else if reply.rc < 0 && self.total == 0 {
            Progress::Done(Err(Error::Os(reply.errno)))
        } else {
            Progress::Done(Ok(self.total))
        }
    }

    fn resume(self, reply: Reply) -> (progress: Progress<Draining, Result<u64, Error>>) {
        if reply.rc == 8 {
            let total: u64 = self.total.wrapping_add(payload::decode(&reply.payload));
            let call: SysCall = if total == 0 {
                SysCall::Read { fd: self.fd }
            } else {
                SysCall::ReadReady { fd: self.fd }
            };
            Progress::Call(call, Draining { fd: self.fd, total })
        } else if reply.rc < 0 {
            if self.total == 0 {
                return Progress::Done(Err(Error::Os(reply.errno)));
            }
            // Once something was read, failing to read more is the end of the drain.
            Progress::Done(Ok(self.total))
        } else {
            // A partial payload, or the end of the stream.
            Progress::Done(Ok(self.total))
        }
    }
}

/// The duplication of an [`EventFd`].
#[derive(Clone, Copy, Debug)]
pub enum Cloning {
    /// Waits for the duplicate of the read end.
    DupRead {
        /// The write end, which is next.
        write_fd: i32,
    },
    /// Waits for the duplicate of the write end.
    DupWrite {
        /// The duplicate of the read end.
        read_dup: i32,
    },
    /// Waits until the duplicate of the read end is closed, after a failure.
    Abandoning {
        /// The error number of the failure.
        errno: i32,
    },
}

impl Machine for Cloning {
    type Out = Result<EventFd, Error>;

    open spec fn next(self, reply: Reply) -> Progress<Cloning, Result<EventFd, Error>> {
        match self {
            Cloning::DupRead { write_fd } => if reply.rc < 0 {
                Progress::Done(Err(Error::Os(reply.errno)))
            } else {
                Progress::Call(
                    SysCall::Dup { fd: write_fd },
                    Cloning::DupWrite { read_dup: reply.rc as i32 },
                )
            },
            Cloning::DupWrite { read_dup } => if reply.rc < 0 {
                Progress::Call(
                    SysCall::Close { fd: read_dup },
                    Cloning::Abandoning { errno: reply.errno },
                )
            } else {
                Progress::Done(Ok(EventFd { read_fd: read_dup, write_fd: reply.rc as i32 }))
            },
            Cloning::Abandoning { errno } => Progress::Done(Err(Error::Os(errno))),
        }
    }

    fn resume(self, reply: Reply) -> (progress: Progress<Cloning, Result<EventFd, Error>>) {
        match self {
            Cloning::DupRead { write_fd } => {
                if reply.rc < 0 {
                    Progress::Done(Err(Error::Os(reply.errno)))
                } else {
                    Progress::Call(
                        SysCall::Dup { fd: write_fd },
                        Cloning::DupWrite { read_dup: reply.rc as i32 },
                    )
                }
            },
            Cloning::DupWrite { read_dup } => {
                if reply.rc < 0 {
                    Progress::Call(
                        SysCall::Close { fd: read_dup },
                        Cloning::Abandoning { errno: reply.errno },
                    )
                } else {
                    Progress::Done(Ok(EventFd { read_fd: read_dup, write_fd: reply.rc as i32 }))
                }
            },
            Cloning::Abandoning { errno } => Progress::Done(Err(Error::Os(errno))),
        }
    }
}

/// The making of an [`EventFd`] from a descriptor; it waits for the descriptor's duplicate.
#[derive(Clone, Copy, Debug)]
pub struct Wrapping {
    /// The descriptor.
    pub fd: i32,
}

impl Machine for Wrapping {
    type Out = EventFd;

    open spec fn next(self, reply: Reply) -> Progress<Wrapping, EventFd> {
        Progress::Done(
            EventFd {
                read_fd: self.fd,
                write_fd: if reply.rc >= 0 {
                    reply.rc as i32
                } else {
                    self.fd
                },
            },
        )
    }

    fn resume(self, reply: Reply) -> (progress: Progress<Wrapping, EventFd>) {
        let write_fd: i32 = if reply.rc >= 0 {
            reply.rc as i32
        } else {
            self.fd
        };
        Progress::Done(EventFd { read_fd: self.fd, write_fd })
    }
}

/// The release of the read end of an [`EventFd`]; it waits until the write end is closed.
#[derive(Clone, Copy, Debug)]
pub struct Releasing {
    /// The read end.
    pub fd: i32,
}

impl Machine for Releasing {
    type Out = i32;

    open spec fn next(self, reply: Reply) -> Progress<Releasing, i32> {
        Progress::Done(self.fd)
    }

    fn resume(self, reply: Reply) -> (progress: Progress<Releasing, i32>) {
        Progress::Done(self.fd)
    }
}

/// How the creation of an event descriptor starts.
pub open spec fn creation(flag: i32) -> Progress<Creating, Result<EventFd, Error>> {
    Progress::Call(SysCall::Socketpair, Creating::Pairing { flag })
}

/// Whether `progress` is how an addition of `v` to the counter starts.
pub open spec fn is_addition(
    progress: Progress<Writing, Result<(), Error>>,
    efd: EventFd,
    v: u64,
) -> bool {
    progress matches Progress::Call(SysCall::Write { fd, bytes }, Writing) && fd == efd.write_fd
        && bytes@ == payload::payload(v)
}

/// How a drain of the counter starts.
pub open spec fn drain(efd: EventFd) -> Progress<Draining, Result<u64, Error>> {
    Progress::Call(next_read(efd.read_fd, 0), Draining { fd: efd.read_fd, total: 0 })
}

/// How the duplication of an event descriptor starts.
pub open spec fn duplication(efd: EventFd) -> Progress<Cloning, Result<EventFd, Error>> {
    Progress::Call(
        SysCall::Dup { fd: efd.read_fd },
        Cloning::DupRead { write_fd: efd.write_fd },
    )
}

/// How an event descriptor is made of one end of a pair.
pub open spec fn wrapped(fd: i32) -> Progress<Wrapping, EventFd> {
    Progress::Call(SysCall::Dup { fd }, Wrapping { fd })
}

/// How the release of the read end starts.
pub open spec fn release(efd: EventFd) -> Progress<Releasing, i32> {
    match other_end(efd) {
        Some(fd) => Progress::Call(SysCall::Close { fd }, Releasing { fd: efd.read_fd }),
        None => Progress::Done(efd.read_fd),
    }
}

/// How the closing of both ends starts.
pub open spec fn closing(efd: EventFd) -> Progress<Closing, ()> {
    Progress::Call(SysCall::Close { fd: efd.read_fd }, Closing { rest: other_end(efd) })
}

impl EventFd {
    /// Creates an event descriptor. `flag` is made of the `EFD_*` flags.
    ///
    /// Where it fails once the socket pair is there, both ends are closed again.
    pub fn new(flag: i32) -> (progress: Progress<Creating, Result<EventFd, Error>>)
        ensures
            progress == creation(flag),
    {
        Progress::Call(SysCall::Socketpair, Creating::Pairing { flag })
    }

    /// Adds `v` to the counter. The read end becomes readable.
    pub fn write(&self, v: u64) -> (progress: Progress<Writing, Result<(), Error>>)
        ensures
            is_addition(progress, *self, v),
    {
        Progress::Call(SysCall::Write { fd: self.write_fd, bytes: payload::encode(v) }, Writing)
    }

    /// Takes all increments that have arrived and returns their sum.
    ///
    /// While the sum is 0, an event descriptor whose calls wait waits for an increment; one
    /// whose calls do not returns the error of the read that found none. Once the sum is not
    /// 0, finding no more ends the drain. The part of a payload, or the end of the stream,
    /// ends it with the sum so far in any case.
    pub fn read(&self) -> (progress: Progress<Draining, Result<u64, Error>>)
        ensures
            progress == drain(*self),
    {
        Progress::Call(SysCall::Read { fd: self.read_fd }, Draining { fd: self.read_fd, total: 0 })
    }

    /// Duplicates both ends: the clone has the same counter.
    pub fn try_clone(&self) -> (progress: Progress<Cloning, Result<EventFd, Error>>)
        ensures
            progress == duplication(*self),
    {
        Progress::Call(
            SysCall::Dup { fd: self.read_fd },
            Cloning::DupRead { write_fd: self.write_fd },
        )
    }

    /// The read end, which becomes readable when the counter is added to.
    pub fn as_raw_fd(&self) -> (fd: i32)
        ensures
            fd == self.read_fd,
    {
        self.read_fd
    }

    /// Makes an event descriptor of one end of a pair. The write end is a duplicate of the
    /// same descriptor, or, where it cannot be duplicated, the descriptor itself.
    pub fn from_fd(fd: i32) -> (progress: Progress<Wrapping, EventFd>)
        ensures
            progress == wrapped(fd),
    {
        Progress::Call(SysCall::Dup { fd }, Wrapping { fd })
    }

    /// Gives the read end up to the caller and closes the write end.
    pub fn into_raw_fd(self) -> (progress: Progress<Releasing, i32>)
        ensures
            progress == release(self),
    {
        match end_after_read(&self) {
            Some(fd) => Progress::Call(SysCall::Close { fd }, Releasing { fd: self.read_fd }),
            None => Progress::Done(self.read_fd),
        }
    }

    /// Closes both ends.
    pub fn close(self) -> (progress: Progress<Closing, ()>)
        ensures
            progress == closing(self),
    {
        let rest: Option<i32> = end_after_read(&self);
        Progress::Call(SysCall::Close { fd: self.read_fd }, Closing { rest })
    }
}

} // verus!
