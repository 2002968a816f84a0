//! A model of the system that event descriptors run on: descriptors, and the stream sockets
//! behind them. The laws in [`crate::eventfd_laws`] say what operations come to on it.
//!
//! No signal interrupts a read.

use crate::darwin::{EAGAIN, FD_CLOEXEC, O_NONBLOCK};
use crate::eventfd::{Adjustment, EventFd, Setting};
use crate::payload::payload;
use crate::sys::{Machine, Progress, Reply, SysCall};
use vstd::prelude::*;

verus! {

/// An open descriptor.
pub ghost struct Descriptor {
    /// The socket behind it, or the kqueue.
    pub file: nat,
    /// Its own flags.
    pub flags: i32,
}

/// One end of a connected pair of stream sockets.
pub ghost struct Socket {
    /// The status flags, which all its descriptors share.
    pub status: i32,
    /// The bytes that have arrived and were not read yet.
    pub inbox: Seq<u8>,
    /// The other end.
    pub peer: nat,
}

/// The state of the system.
pub ghost struct Kernel {
    /// The open descriptors.
    pub fds: Map<i32, Descriptor>,
    /// The sockets.
    pub files: Map<nat, Socket>,
}

impl Kernel {
    /// Whether `fd` is open, with a socket behind it.
    pub open spec fn open(self, fd: i32) -> bool {
        self.fds.contains_key(fd) && self.files.contains_key(self.fds[fd].file)
    }

    /// The socket behind `fd`.
    pub open spec fn socket(self, fd: i32) -> Socket {
        self.files[self.fds[fd].file]
    }

    /// The state with another socket behind `fd`.
    pub open spec fn with_socket(self, fd: i32, socket: Socket) -> Kernel {
        Kernel { files: self.files.insert(self.fds[fd].file, socket), ..self }
    }

    /// The state in which `fd` is closed.
    pub open spec fn closed(self, fd: i32) -> Kernel {
        Kernel { fds: self.fds.remove(fd), ..self }
    }

    /// The state in which `fd` has these status flags.
    pub open spec fn with_status(self, fd: i32, status: i32) -> Kernel {
        self.with_socket(fd, Socket { status, ..self.socket(fd) })
    }

    /// The state in which `fd` has these descriptor flags.
    pub open spec fn with_flags(self, fd: i32, flags: i32) -> Kernel {
        Kernel { fds: self.fds.insert(fd, Descriptor { flags, ..self.fds[fd] }), ..self }
    }

    /// The state in which these bytes wait to be read from `fd`.
    pub open spec fn with_inbox(self, fd: i32, inbox: Seq<u8>) -> Kernel {
        self.with_socket(fd, Socket { inbox, ..self.socket(fd) })
    }

    /// The state in which `bytes` were sent into `fd`: they arrive at the other end.
    pub open spec fn sent(self, fd: i32, bytes: Seq<u8>) -> Kernel {
        let peer = self.socket(fd).peer;
        let end = self.files[peer];
        Kernel {
            files: self.files.insert(peer, Socket { inbox: end.inbox + bytes, ..end }),
            ..self
        }
    }

    /// Whether `post` is the state in which `pair` is a new socket pair.
    pub open spec fn paired(self, pair: (i32, i32), post: Kernel) -> bool {
        let (r, w) = pair;
        let (a, b) = (post.fds[r].file, post.fds[w].file);
        let (sa, sb) = (post.files[a].status, post.files[b].status);
        &&& r != w
        &&& !self.fds.contains_key(r)
        &&& !self.fds.contains_key(w)
        &&& a != b
        &&& !self.files.contains_key(a)
        &&& !self.files.contains_key(b)
        &&& sa & O_NONBLOCK == 0
        &&& sb & O_NONBLOCK == 0
        &&& post.fds == self.fds.insert(r, Descriptor { file: a, flags: 0 }).insert(
            w,
            Descriptor { file: b, flags: 0 },
        )
        &&& post.files == self.files.insert(
            a,
            Socket { status: sa, inbox: seq![], peer: b },
        ).insert(b, Socket { status: sb, inbox: seq![], peer: a })
    }

    /// Whether some descriptor of the socket at the other end of `fd` is open.
    pub open spec fn peer_open(self, fd: i32) -> bool {
        exists|other: i32| #[trigger]
            self.fds.contains_key(other) && self.fds[other].file == self.socket(fd).peer
    }

    /// Whether reading from `fd` does not wait: something has arrived, or the other end is
    /// closed.
    pub open spec fn readable(self, fd: i32) -> bool {
        self.socket(fd).inbox.len() > 0 || !self.peer_open(fd)
    }

    /// Whether `reply` is an answer to reading from `fd`, with `post` as the state after it.
    /// What has arrived is read from its front, as much as fits. Where nothing has, the call
    /// fails, unless the other end is closed: that is the end of the stream.
    pub open spec fn answers_read(self, fd: i32, reply: Reply, post: Kernel) -> bool {
        let inbox = self.socket(fd).inbox;
        let count = if inbox.len() < 8 {
            inbox.len() as int
        } else {
            8
        };
        if inbox.len() == 0 {
            &&& if self.peer_open(fd) {
                reply.rc < 0 && reply.errno == EAGAIN
            } else {
                reply.rc == 0
            }
            &&& post == self
        } else {
            &&& reply.rc == count
            &&& reply.payload@.take(count) == inbox.take(count)
            &&& post == self.with_inbox(fd, inbox.skip(count))
        }
    }

    /// Whether `reply` is an answer to `call`, with `post` as the state after it.
    ///
    /// Any call but a read or a close may fail, and then changes nothing.
    pub open spec fn answers(self, call: SysCall, reply: Reply, post: Kernel) -> bool {
        match call {
            SysCall::Socketpair => if reply.rc == 0 {
                self.paired(reply.pair, post)
            } else {
                post == self
            },
            SysCall::GetStatusFlags { fd } => {
                &&& reply.rc >= 0 ==> self.open(fd) && reply.rc == self.socket(fd).status
                &&& post == self
            },
            SysCall::SetStatusFlags { fd, flags } => if reply.rc >= 0 {
                self.open(fd) && post == self.with_status(fd, flags)
            } else {
                post == self
            },
            SysCall::GetDescriptorFlags { fd } => {
                &&& reply.rc >= 0 ==> self.open(fd) && reply.rc == self.fds[fd].flags
                &&& post == self
            },
            SysCall::SetDescriptorFlags { fd, flags } => if reply.rc >= 0 {
                self.open(fd) && post == self.with_flags(fd, flags)
            } else {
                post == self
            },
            SysCall::Write { fd, bytes } => if reply.rc >= 0 {
                &&& self.open(fd)
                &&& self.peer_open(fd)
                &&& reply.rc <= 8
                &&& post == self.sent(fd, bytes@.take(reply.rc as int))
            } else {
                post == self
            },
            SysCall::Read { fd } => {
                &&& self.open(fd)
                // Otherwise the call waits.
                &&& self.readable(fd) || self.nonblocking(fd)
                &&& self.answers_read(fd, reply, post)
            },
            SysCall::ReadReady { fd } => self.open(fd) && self.answers_read(fd, reply, post),
            SysCall::Dup { fd } => if reply.rc >= 0 {
                &&& self.open(fd)
                &&& reply.rc <= i32::MAX
                &&& !self.fds.contains_key(reply.rc as i32)
                &&& post == Kernel {
                    fds: self.fds.insert(
                        reply.rc as i32,
                        Descriptor { file: self.fds[fd].file, flags: 0 },
                    ),
                    ..self
                }
            } else {
                post == self
            },
            SysCall::Close { fd } => post == self.closed(fd),
            SysCall::Kqueue => if reply.rc >= 0 {
                let fd = reply.rc as i32;
                &&& reply.rc <= i32::MAX
                &&& !self.fds.contains_key(fd)
                &&& !self.files.contains_key(post.fds[fd].file)
                &&& post == Kernel {
                    fds: self.fds.insert(fd, Descriptor { file: post.fds[fd].file, flags: 0 }),
                    ..self
                }
            } else {
                post == self
            },
        }
    }

    /// Whether calls on `fd` do not wait.
    pub open spec fn nonblocking(self, fd: i32) -> bool {
        self.socket(fd).status & O_NONBLOCK != 0
    }

    /// Whether `exec` closes `fd`.
    pub open spec fn close_on_exec(self, fd: i32) -> bool {
        self.fds[fd].flags & FD_CLOEXEC != 0
    }

    /// Whether the ends of `efd` are open and belong together: what is sent into one of them
    /// arrives at the other.
    pub open spec fn connects(self, efd: EventFd) -> bool {
        &&& self.open(efd.read_fd)
        &&& self.open(efd.write_fd)
        &&& self.socket(efd.write_fd).peer == self.fds[efd.read_fd].file
        &&& self.socket(efd.read_fd).peer == self.fds[efd.write_fd].file
    }

    /// Whether the two are event descriptors with the same counter.
    pub open spec fn share(self, a: EventFd, b: EventFd) -> bool {
        &&& self.connects(a)
        &&& self.connects(b)
        &&& self.fds[a.read_fd].file == self.fds[b.read_fd].file
    }

    /// The bytes that wait to be read from `efd`.
    pub open spec fn waiting(self, efd: EventFd) -> Seq<u8> {
        self.socket(efd.read_fd).inbox
    }

    /// The state in which one flag more is set.
    pub open spec fn adjusted(self, a: Adjustment) -> Kernel {
        match a.setting {
            Setting::Nonblock => self.with_status(a.fd, self.socket(a.fd).status | O_NONBLOCK),
            Setting::Cloexec => self.with_flags(a.fd, self.fds[a.fd].flags | FD_CLOEXEC),
        }
    }

    /// The state in which the flags of `todo` from `from` on are set too.
    pub open spec fn adjusted_from(self, todo: Seq<Adjustment>, from: int) -> Kernel
        decreases todo.len() - from,
    {
        if 0 <= from < todo.len() {
            self.adjusted(todo[from]).adjusted_from(todo, from + 1)
        } else {
            self
        }
    }

    /// The state in which the increments `vs` were added to `efd`, one after the other.
    pub open spec fn added(self, efd: EventFd, vs: Seq<u64>) -> Kernel
        decreases vs.len(),
    {
        if vs.len() == 0 {
            self
        } else {
            self.added(efd, vs.drop_last()).sent(efd.write_fd, payload(vs.last()))
        }
    }
}

/// What an operation comes to if it stands at `progress` in the state `kernel`, and `trace`
/// holds the replies to its calls, each with the state after it: its result, and the last
/// state. `None` if the trace ends early or late, or holds what is no answer.
pub open spec fn run<M: Machine>(
    kernel: Kernel,
    progress: Progress<M, M::Out>,
    trace: Seq<(Reply, Kernel)>,
) -> Option<(M::Out, Kernel)>
    decreases trace.len(),
{
    match progress {
        Progress::Done(out) => if trace.len() == 0 {
            Some((out, kernel))
        } else {
            None
        },
        Progress::Call(call, machine) => if trace.len() > 0 && kernel.answers(
            call,
            trace[0].0,
            trace[0].1,
        ) {
            run(trace[0].1, machine.next(trace[0].0), trace.drop_first())
        } else {
            None
        },
    }
}

/// The sum of the increments.
pub open spec fn sum(vs: Seq<u64>) -> nat
    decreases vs.len(),
{
    if vs.len() == 0 {
        0
    } else {
        sum(vs.drop_last()) + vs.last() as nat
    }
}

/// The payloads of the increments, one after the other.
pub open spec fn payloads(vs: Seq<u64>) -> Seq<u8>
    decreases vs.len(),
{
    if vs.len() == 0 {
        seq![]
    } else {
        payloads(vs.drop_last()) + payload(vs.last())
    }
}

} // verus!
