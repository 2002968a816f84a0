//! Numbers of the Darwin system interface that the shims depend on.

use vstd::prelude::*;

verus! {

/// kqueue filter: the descriptor is readable.
pub const EVFILT_READ: i16 = -1;

/// kqueue filter: the descriptor is writable.
pub const EVFILT_WRITE: i16 = -2;

/// kevent action: register, or update a registration in place.
pub const EV_ADD: u16 = 0x0001;

/// kevent action: remove a registration.
pub const EV_DELETE: u16 = 0x0002;

/// kevent flag: remove the registration after its first delivery.
pub const EV_ONESHOT: u16 = 0x0010;

/// kevent flag: reset the state after delivery (edge-triggered).
pub const EV_CLEAR: u16 = 0x0020;

/// kevent flag: report the fate of the change in place of pending events.
pub const EV_RECEIPT: u16 = 0x0040;

/// kevent result flag: `data` holds an error number.
pub const EV_ERROR: u16 = 0x4000;

/// kevent result flag: the peer is gone.
pub const EV_EOF: u16 = 0x8000;

/// Error number: no such registration.
pub const ENOENT: i32 = 2;

/// Error number: a signal interrupted the call.
pub const EINTR: i32 = 4;

/// Error number: nothing to read, or no room to write, on a non-blocking descriptor.
pub const EAGAIN: i32 = 35;

/// Status flag of an open file: calls on it do not wait.
pub const O_NONBLOCK: i32 = 0x0004;

/// Descriptor flag: the descriptor is closed by `exec`.
pub const FD_CLOEXEC: i32 = 0x0001;

/// The numbers are those of the Darwin headers.
pub proof fn law_darwin_numbers()
    ensures
        EVFILT_READ == -1,
        EVFILT_WRITE == -2,
        EV_ADD == 0x0001,
        EV_DELETE == 0x0002,
        EV_ONESHOT == 0x0010,
        EV_CLEAR == 0x0020,
        EV_RECEIPT == 0x0040,
        EV_ERROR == 0x4000,
        EV_EOF == 0x8000,
        ENOENT == 2,
        EINTR == 4,
        EAGAIN == 35,
        O_NONBLOCK == 4,
        FD_CLOEXEC == 1,
{
}

} // verus!
