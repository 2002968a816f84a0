//! The boundary to the operating system.
//!
//! Nothing in this crate makes a system call. An operation that needs some is a
//! [`Machine`]: it hands out one [`SysCall`] at a time, takes the [`Reply`] to it, and
//! ends with the operation's result. Whoever runs the machine makes the calls.

use vstd::prelude::*;

verus! {

/// A system call that an operation asks for.
#[derive(Clone, Copy, Debug, PartialEq, Eq)]
pub enum SysCall {
    /// `socketpair(AF_UNIX, SOCK_STREAM, 0, pair)`.
    Socketpair,
    /// `fcntl(fd, F_GETFL)`.
    GetStatusFlags { fd: i32 },
    /// `fcntl(fd, F_SETFL, flags)`.
    SetStatusFlags { fd: i32, flags: i32 },
    /// `fcntl(fd, F_GETFD)`.
    GetDescriptorFlags { fd: i32 },
    /// `fcntl(fd, F_SETFD, flags)`.
    SetDescriptorFlags { fd: i32, flags: i32 },
    /// `write(fd, bytes, 8)`.
    Write { fd: i32, bytes: [u8; 8] },
    /// `read(fd, payload, 8)`.
    Read { fd: i32 },
    /// `read(fd, payload, 8)`, but never waiting: where the call would wait, it fails.
    ReadReady { fd: i32 },
    /// `dup(fd)`.
    Dup { fd: i32 },
    /// `close(fd)`.
    Close { fd: i32 },
    /// `kqueue()`.
    Kqueue,
}

/// What came back from a system call.
#[derive(Clone, Copy, Debug, PartialEq, Eq)]
pub struct Reply {
    /// The call's return value.
    pub rc: i64,
    /// The error number, where `rc` reports a failure.
    pub errno: i32,
    /// The two descriptors that `socketpair` filled in.
    pub pair: (i32, i32),
    /// The buffer that `read` filled from its start.
    pub payload: [u8; 8],
}

/// Why an operation failed.
#[derive(Clone, Copy, Debug, PartialEq, Eq)]
pub enum Error {
    /// The system reported this error number.
    Os(i32),
    /// The system took fewer bytes than a whole payload.
    ShortWrite,
}

/// Where a running operation stands.
#[derive(Debug)]
pub enum Progress<M, T> {
    /// The system call to make next, and the machine that takes its reply.
    Call(SysCall, M),
    /// The operation is over.
    Done(T),
}

/// An operation that waits for the reply to a system call.
pub trait Machine: Sized {
    /// What the operation results in.
    type Out;

    /// What follows `reply`.
    spec fn next(self, reply: Reply) -> Progress<Self, Self::Out>;

    /// Takes the reply to the call that the machine was handed out with.
    fn resume(self, reply: Reply) -> (progress: Progress<Self, Self::Out>)
        ensures
            progress == self.next(reply),
    ;
}

/// The end of a handle: one of its descriptors is being closed, and `rest` is the one to
/// close after that. What `close` returns does not matter.
#[derive(Clone, Copy, Debug, PartialEq, Eq)]
pub struct Closing {
    /// The descriptor that is still to be closed.
    pub rest: Option<i32>,
}

impl Machine for Closing {
    type Out = ();

    open spec fn next(self, reply: Reply) -> Progress<Closing, ()> {
        match self.rest {
            Some(fd) => Progress::Call(SysCall::Close { fd }, Closing { rest: None }),
            None => Progress::Done(()),
        }
    }

    fn resume(self, reply: Reply) -> (progress: Progress<Closing, ()>) {
        match self.rest {
            Some(fd) => Progress::Call(SysCall::Close { fd }, Closing { rest: None }),
            None => Progress::Done(()),
        }
    }
}

} // verus!
