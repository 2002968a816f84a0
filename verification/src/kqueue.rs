//! What passes through the `kevent` system call.

use vstd::prelude::*;

verus! {

/// One entry of a change list or of an event list.
#[derive(Clone, Copy, Debug, PartialEq, Eq, Structural)]
pub struct Kevent {
    /// The descriptor.
    pub ident: usize,
    /// The kind of readiness, one of the `EVFILT_*` numbers.
    pub filter: i16,
    /// `EV_*` actions and flags.
    pub flags: u16,
    /// Flags of the filter; the filters used here have none.
    pub fflags: u32,
    /// A value that depends on the filter, or an error number.
    pub data: isize,
    /// The registrant's cookie.
    pub udata: u64,
}

/// A span of time.
#[derive(Clone, Copy, Debug, PartialEq, Eq, Structural)]
pub struct Timespec {
    /// Whole seconds.
    pub tv_sec: i64,
    /// The rest, in nanoseconds.
    pub tv_nsec: i64,
}

/// A `kevent` call to make.
///
/// The event list has `capacity` entries. Where there are changes, it is the change list
/// itself: each entry holds its change until the system overwrites it.
#[derive(Debug)]
pub struct KeventCall {
    /// The queue.
    pub kq: i32,
    /// The changes to apply.
    pub changes: Vec<Kevent>,
    /// The number of entries in the event list.
    pub capacity: i32,
    /// How long to wait for an event; `None` is forever.
    pub timeout: Option<Timespec>,
}

/// What came back from a `kevent` call.
#[derive(Debug)]
pub struct KeventReply {
    /// The call's return value.
    pub rc: i32,
    /// The error number, where `rc` reports a failure.
    pub errno: i32,
    /// The event list after the call.
    pub events: Vec<Kevent>,
}

/// Where an operation on a kqueue stands before any `kevent` call.
#[derive(Debug)]
pub enum KeventProgress<T> {
    /// The call to make; its reply decides the result.
    Call(KeventCall),
    /// The operation is over without a call.
    Done(T),
}

/// The change that registers or removes `filter` on `fd`, as `flags` say.
pub open spec fn change(fd: i32, filter: i16, flags: u16, udata: u64) -> Kevent {
    Kevent { ident: fd as usize, filter, flags, fflags: 0, data: 0, udata }
}

/// An entry for the system to overwrite.
pub fn empty_kevent() -> (entry: Kevent)
    ensures
        entry == (Kevent { ident: 0, filter: 0, flags: 0, fflags: 0, data: 0, udata: 0 }),
{
    Kevent { ident: 0, filter: 0, flags: 0, fflags: 0, data: 0, udata: 0 }
}

/// The change that registers or removes `filter` on `fd`, as `flags` say.
pub fn make_kevent(fd: i32, filter: i16, flags: u16, udata: u64) -> (entry: Kevent)
    ensures
        entry == change(fd, filter, flags, udata),
        entry == (Kevent { ident: fd as usize, filter, flags, fflags: 0, data: 0, udata }),
{
    Kevent { ident: fd as usize, filter, flags, fflags: 0, data: 0, udata }
}

} // verus!
