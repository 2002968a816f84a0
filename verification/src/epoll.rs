//! Linux's `epoll(7)` on top of BSD's `kqueue(2)`.
//!
//! An epoll registration belongs to a descriptor and carries one mask of event flags; a
//! kqueue registration belongs to a descriptor and a filter. So one control operation turns
//! into up to two changes:
//!
//! | epoll                                  | kqueue                                   |
//! |----------------------------------------|------------------------------------------|
//! | [`EventSet::IN`]                       | `EVFILT_READ`                            |
//! | [`EventSet::OUT`]                      | `EVFILT_WRITE`                           |
//! | [`EventSet::EDGE_TRIGGERED`]           | `EV_CLEAR`                               |
//! | [`EventSet::ONE_SHOT`]                 | `EV_ONESHOT`                             |
//! | [`ControlOperation::Add`]              | `EV_ADD`                                 |
//! | [`ControlOperation::Modify`]           | `EV_ADD`, which updates in place         |
//! | [`ControlOperation::Delete`]           | `EV_DELETE` of both filters              |
//! | the user data                          | `udata`                                  |

use crate::darwin::{
    EINTR, ENOENT, EVFILT_READ, EVFILT_WRITE, EV_ADD, EV_CLEAR, EV_DELETE, EV_EOF, EV_ERROR,
    EV_ONESHOT, EV_RECEIPT,
};
use crate::event_set::{
    covers, known, law_truncation_keeps_flags, EventSet, E_ALL, E_ERR, E_ET, E_HUP, E_IN, E_ONESHOT, E_OUT,
};
use crate::kqueue::{
    change, make_kevent, Kevent, KeventCall, KeventProgress, KeventReply, Timespec,
};
use crate::sys::{Closing, Error, Machine, Progress, Reply, SysCall};
use crate::text::{decimal, hexadecimal, numeral, push_decimal, push_hexadecimal};
use vstd::prelude::*;

verus! {

/// A mask of event flags and a cookie.
#[derive(Clone, Copy, PartialEq, Eq, Structural)]
pub struct MacosEpollEvent {
    /// The mask; its bits are those of [`EventSet`].
    pub events: u32,
    /// The caller's cookie, often a descriptor or the index of a vring.
    pub u64: u64,
}

impl MacosEpollEvent {
    /// What the event looks like to a person.
    pub open spec fn debug_text(self) -> Seq<char> {
        "MacosEpollEvent { events: "@ + hexadecimal(self.events as nat) + ", u64: "@ + decimal(
            self.u64 as nat,
        ) + " }"@
    }

    /// What the event looks like to a person: the mask in hexadecimal, the cookie in decimal.
    pub fn to_debug_string(&self) -> (text: String)
        ensures
            text@ == self.debug_text(),
            text@ == "MacosEpollEvent { events: "@ + ("0x"@ + numeral(self.events as nat, 16))
                + ", u64: "@ + numeral(self.u64 as nat, 10) + " }"@,
    {
        let mut text: String = String::new();
        text.append("MacosEpollEvent { events: ");
        push_hexadecimal(&mut text, self.events as u64);
        text.append(", u64: ");
        push_decimal(&mut text, self.u64);
        text.append(" }");
        assert(text@ =~= self.debug_text());
        text
    }
}

/// A control operation on the registration of a descriptor.
#[derive(Clone, Copy, Debug, PartialEq, Eq, Structural)]
pub enum ControlOperation {
    /// Register a descriptor.
    Add,
    /// Update a registration. `EV_ADD` updates in place, so this is the same as
    /// [`ControlOperation::Add`].
    Modify,
    /// Remove a registration.
    Delete,
}

impl ControlOperation {
    /// The number of the operation.
    pub fn code(self) -> (code: i32)
        ensures
            code == match self {
                ControlOperation::Add => 1i32,
                ControlOperation::Modify => 2,
                ControlOperation::Delete => 3,
            },
    {
        match self {
            ControlOperation::Add => 1,
            ControlOperation::Modify => 2,
            ControlOperation::Delete => 3,
        }
    }
}

/// An event to register for, or one that was delivered.
#[derive(Clone, Copy)]
pub struct EpollEvent(MacosEpollEvent);

impl View for EpollEvent {
    type V = MacosEpollEvent;

    closed spec fn view(&self) -> MacosEpollEvent {
        self.0
    }
}

impl core::ops::Deref for EpollEvent {
    type Target = MacosEpollEvent;

    fn deref(&self) -> (inner: &MacosEpollEvent)
        ensures
            *inner == self@,
    {
        &self.0
    }
}

impl Default for EpollEvent {
    fn default() -> (event: EpollEvent)
        ensures
            event@ == (MacosEpollEvent { events: 0, u64: 0 }),
    {
        EpollEvent(MacosEpollEvent { events: 0, u64: 0 })
    }
}

impl EpollEvent {
    /// An event with these flags and this cookie.
    pub fn new(events: EventSet, data: u64) -> (event: EpollEvent)
        ensures
            event@ == (MacosEpollEvent { events: events@, u64: data }),
            known(event@.events),
    {
        EpollEvent(MacosEpollEvent { events: events.bits(), u64: data })
    }

    /// The mask.
    pub fn events(&self) -> (bits: u32)
        ensures
            bits == self@.events,
    {
        self.0.events
    }

    /// The flags in the mask; bits that are no flag are dropped.
    pub fn event_set(&self) -> (set: EventSet)
        ensures
            set@ == self@.events & E_ALL,
            known(self@.events) ==> set@ == self@.events,
    {
        EventSet::from_bits_truncate(self.0.events)
    }

    /// The cookie.
    pub fn data(&self) -> (data: u64)
        ensures
            data == self@.u64,
    {
        self.0.u64
    }

    /// What the event looks like to a person.
    pub open spec fn debug_text(self) -> Seq<char> {
        "{ events: "@ + decimal(self@.events as nat) + ", data: "@ + decimal(self@.u64 as nat) + " }"@
    }

    /// What the event looks like to a person: the mask and the cookie in decimal.
    pub fn to_debug_string(&self) -> (text: String)
        ensures
            text@ == self.debug_text(),
            text@ == "{ events: "@ + numeral(self@.events as nat, 10) + ", data: "@ + numeral(
                self@.u64 as nat,
                10,
            ) + " }"@,
    {
        let mut text: String = String::new();
        text.append("{ events: ");
        push_decimal(&mut text, self.events() as u64);
        text.append(", data: ");
        push_decimal(&mut text, self.data());
        text.append(" }");
        assert(text@ =~= self.debug_text());
        text
    }

    /// The cookie as a descriptor: its low 32 bits.
    pub fn fd(&self) -> (fd: i32)
        ensures
            fd == self@.u64 as i32,
    {
        self.0.u64 as i32
    }
}

/// The kevent flags of the changes that `operation` asks for.
pub open spec fn change_flags(operation: ControlOperation, events: u32) -> u16 {
    if operation is Delete {
        EV_DELETE | EV_RECEIPT
    } else {
        EV_ADD | EV_RECEIPT | (if covers(events, E_ET) {
            EV_CLEAR
        } else {
            0
        }) | (if covers(events, E_ONESHOT) {
            EV_ONESHOT
        } else {
            0
        })
    }
}

/// The change to one filter of `fd` that `operation` asks for, if it asks for one: the mask
/// of the event must hold `flag`, except that a delete concerns every filter.
pub open spec fn filter_change(
    operation: ControlOperation,
    fd: i32,
    event: MacosEpollEvent,
    flag: u32,
    filter: i16,
) -> Seq<Kevent> {
    if operation is Delete || covers(event.events, flag) {
        seq![change(fd, filter, change_flags(operation, event.events), event.u64)]
    } else {
        seq![]
    }
}

/// The changes that `operation` on `fd` asks for.
pub open spec fn ctl_changes(
    operation: ControlOperation,
    fd: i32,
    event: MacosEpollEvent,
) -> Seq<Kevent> {
    filter_change(operation, fd, event, E_IN, EVFILT_READ)
        + filter_change(operation, fd, event, E_OUT, EVFILT_WRITE)
}

/// Whether the system reports an error in this entry.
pub open spec fn reports_error(entry: Kevent) -> bool {
    entry.flags & EV_ERROR != 0 && entry.data != 0
}

/// Whether this receipt makes `operation` fail. Deleting what was not registered is no
/// failure: a delete covers both filters, and either may never have been registered.
pub open spec fn receipt_fails(operation: ControlOperation, receipt: Kevent) -> bool {
    reports_error(receipt) && !(operation is Delete && receipt.data as i32 == ENOENT)
}

/// The result of `operation`, given what came back for its changes: the error of the first
/// receipt that makes it fail.
pub open spec fn ctl_outcome(
    operation: ControlOperation,
    reply: KeventReply,
    result: Result<(), Error>,
) -> bool {
    match result {
        Ok(()) => reply.rc >= 0 && forall|i: int|
            0 <= i < reply.events@.len() ==> !receipt_fails(
                operation,
                #[trigger] reply.events@[i],
            ),
        Err(error) => if reply.rc < 0 {
            error == Error::Os(reply.errno)
        } else {
            exists|i: int|
                {
                    &&& 0 <= i < reply.events@.len()
                    &&& receipt_fails(operation, #[trigger] reply.events@[i])
                    &&& error == Error::Os(reply.events@[i].data as i32)
                    &&& forall|j: int|
                        0 <= j < i ==> !receipt_fails(operation, #[trigger] reply.events@[j])
                }
        },
    }
}

/// How long to wait: `timeout` milliseconds, or forever if it is negative.
pub open spec fn wait_timeout(timeout: i32) -> Option<Timespec> {
    if timeout < 0 {
        None
    } else {
        Some(
            Timespec {
                tv_sec: (timeout as int / 1000) as i64,
                tv_nsec: (timeout as int % 1000 * 1_000_000) as i64,
            },
        )
    }
}

/// The mask that stands for what the system reports in `entry`.
pub open spec fn delivered_bits(entry: Kevent) -> u32 {
    (if entry.filter == EVFILT_READ {
        E_IN
    } else if entry.filter == EVFILT_WRITE {
        E_OUT
    } else {
        0
    }) | (if entry.flags & EV_EOF != 0 {
        E_HUP
    } else {
        0
    }) | (if reports_error(entry) {
        E_ERR
    } else {
        0
    })
}

/// The event that stands for what the system reports in `entry`.
pub open spec fn delivered(entry: Kevent) -> MacosEpollEvent {
    MacosEpollEvent { events: delivered_bits(entry), u64: entry.udata }
}

/// The result of a wait, given what came back from its `kevent` call: what was reported
/// stands at the front of the events, which otherwise stay as they were. A wait that a signal
/// interrupted delivers none.
pub open spec fn wait_outcome(
    reply: KeventReply,
    before: Seq<EpollEvent>,
    result: Result<usize, Error>,
    after: Seq<EpollEvent>,
) -> bool {
    &&& result == if reply.rc >= 0 {
        Ok::<usize, Error>(reply.rc as usize)
    } else if reply.errno == EINTR {
        Ok(0)
    } else {
        Err(Error::Os(reply.errno))
    }
    &&& after.len() == before.len()
    &&& forall|i: int|
        0 <= i < after.len() ==> (#[trigger] after[i])@ == if i < reply.rc {
            delivered(reply.events@[i])
        } else {
            before[i]@
        }
}

fn has_error(entry: &Kevent) -> (yes: bool)
    ensures
        yes == reports_error(*entry),
{
    entry.flags & EV_ERROR != 0 && entry.data != 0
}

/// A kqueue that takes epoll's operations.
#[derive(Debug)]
pub struct Epoll {
    /// The descriptor of the kqueue.
    pub kq: i32,
}

/// The creation of an [`Epoll`]; it waits for the new kqueue.
#[derive(Clone, Copy, Debug)]
pub struct Opening;

impl Machine for Opening {
    type Out = Result<Epoll, Error>;

    open spec fn next(self, reply: Reply) -> Progress<Opening, Result<Epoll, Error>> {
        Progress::Done(
            if reply.rc < 0 {
                Err(Error::Os(reply.errno))
            } else {
                Ok(Epoll { kq: reply.rc as i32 })
            },
        )
    }

    fn resume(self, reply: Reply) -> (progress: Progress<Opening, Result<Epoll, Error>>) {
        if reply.rc < 0 {
            Progress::Done(Err(Error::Os(reply.errno)))
        } else {
            Progress::Done(Ok(Epoll { kq: reply.rc as i32 }))
        }
    }
}

impl Epoll {
    /// Creates a kqueue.
    pub fn new() -> (progress: Progress<Opening, Result<Epoll, Error>>)
        ensures
            progress == Progress::<Opening, Result<Epoll, Error>>::Call(SysCall::Kqueue, Opening),
    {
        Progress::Call(SysCall::Kqueue, Opening)
    }

    /// The descriptor of the kqueue.
    pub fn as_raw_fd(&self) -> (fd: i32)
        ensures
            fd == self.kq,
    {
        self.kq
    }

    /// Closes the kqueue.
    pub fn close(self) -> (progress: Progress<Closing, ()>)
        ensures
            progress == Progress::<Closing, ()>::Call(
                SysCall::Close { fd: self.kq },
                Closing { rest: None },
            ),
    {
        Progress::Call(SysCall::Close { fd: self.kq }, Closing { rest: None })
    }

    /// Applies a control operation to the registration of `fd`.
    ///
    /// Where the operation asks for no change it succeeds at once. Otherwise
    /// [`Epoll::ctl_result`] says what the reply to its `kevent` call means.
    pub fn ctl(&self, operation: ControlOperation, fd: i32, event: EpollEvent) -> (progress:
        KeventProgress<Result<(), Error>>)
        ensures
            match progress {
                KeventProgress::Done(result) => {
                    &&& ctl_changes(operation, fd, event@).len() == 0
                    &&& result == Ok::<(), Error>(())
                },
                KeventProgress::Call(c) => {
                    &&& ctl_changes(operation, fd, event@).len() > 0
                    &&& c.kq == self.kq
                    &&& c.changes@ == ctl_changes(operation, fd, event@)
                    &&& c.capacity == c.changes@.len()
                    &&& c.timeout is None
                },
            },
    {
        let evset = event.event_set();
        proof {
            lemma_operation_flags_known();
            law_truncation_keeps_flags(event@.events, E_IN);
            law_truncation_keeps_flags(event@.events, E_OUT);
            law_truncation_keeps_flags(event@.events, E_ET);
            law_truncation_keeps_flags(event@.events, E_ONESHOT);
            lemma_or_zero_u16(EV_ADD | EV_RECEIPT);
            lemma_or_zero_u16(EV_ADD | EV_RECEIPT | EV_CLEAR);
        }
        let delete = matches!(operation, ControlOperation::Delete);
        let flags: u16 = if delete {
            EV_DELETE | EV_RECEIPT
        } else {
            let mut f: u16 = EV_ADD | EV_RECEIPT;
            if evset.contains(EventSet::EDGE_TRIGGERED()) {
                f = f | EV_CLEAR;
            }
            if evset.contains(EventSet::ONE_SHOT()) {
                f = f | EV_ONESHOT;
            }
            f
        };
        let udata: u64 = event.data();
        let mut changes: Vec<Kevent> = Vec::with_capacity(2);
        if evset.contains(EventSet::IN()) || delete {
            changes.push(make_kevent(fd, EVFILT_READ, flags, udata));
        }
        if evset.contains(EventSet::OUT()) || delete {
            changes.push(make_kevent(fd, EVFILT_WRITE, flags, udata));
        }
        assert(changes@ =~= ctl_changes(operation, fd, event@));
        if changes.len() == 0 {
            return KeventProgress::Done(Ok(()));
        }
        let capacity: i32 = changes.len() as i32;
        KeventProgress::Call(KeventCall { kq: self.kq, changes, capacity, timeout: None })
    }

    /// The result of a control operation, from the reply to its `kevent` call.
    ///
    /// The event list holds a receipt for each change.
    pub fn ctl_result(operation: ControlOperation, reply: &KeventReply) -> (result: Result<
        (),
        Error,
    >)
        ensures
            ctl_outcome(operation, *reply, result),
    {
        if reply.rc < 0 {
            return Err(Error::Os(reply.errno));
        }
        let delete = matches!(operation, ControlOperation::Delete);
        for i in 0..reply.events.len()
            invariant
                reply.rc >= 0,
                delete == (operation is Delete),
                forall|j: int|
                    0 <= j < i ==> !receipt_fails(operation, #[trigger] reply.events@[j]),
        {
            let receipt: &Kevent = &reply.events[i];
            if has_error(receipt) {
                let errno: i32 = receipt.data as i32;
                if !(delete && errno == ENOENT) {
                    return Err(Error::Os(errno));
                }
            }
        }
        Ok(())
    }

    /// Waits for events.
    ///
    /// `timeout` is in milliseconds; a negative one waits forever, and 0 does not wait.
    /// `capacity` is the number of events that there is room for. With no room the wait is
    /// over at once, and no event is delivered. Otherwise [`Epoll::wait_result`] says what
    /// the reply to its `kevent` call means.
    pub fn wait(&self, timeout: i32, capacity: usize) -> (progress: KeventProgress<
        Result<usize, Error>,
    >)
        ensures
            match progress {
                KeventProgress::Done(result) => {
                    &&& capacity == 0
                    &&& result == Ok::<usize, Error>(0)
                },
                KeventProgress::Call(c) => {
                    &&& capacity > 0
                    &&& c.kq == self.kq
                    &&& c.changes@ == Seq::<Kevent>::empty()
                    &&& c.capacity == capacity as i32
                    &&& c.timeout == wait_timeout(timeout)
                },
            },
    {
        if capacity == 0 {
            return KeventProgress::Done(Ok(0));
        }
        let span: Option<Timespec> = if timeout < 0 {
            None
        } else {
            Some(
                Timespec {
                    tv_sec: (timeout / 1000) as i64,
                    tv_nsec: ((timeout % 1000) * 1_000_000) as i64,
                },
            )
        };
        KeventProgress::Call(
            KeventCall {
                kq: self.kq,
                changes: Vec::new(),
                capacity: capacity as i32,
                timeout: span,
            },
        )
    }

    /// The result of waiting for events, from the reply to its `kevent` call: how many were
    /// delivered. They are written to the front of `events`.
    ///
    /// A wait that a signal interrupted delivers none.
    pub fn wait_result(reply: &KeventReply, events: &mut [EpollEvent]) -> (result: Result<
        usize,
        Error,
    >)
        requires
            reply.rc <= reply.events@.len(),
            reply.rc <= old(events)@.len(),
        ensures
            wait_outcome(*reply, old(events)@, result, final(events)@),
    {
        if reply.rc < 0 {
            if reply.errno == EINTR {
                return Ok(0);
            }
            return Err(Error::Os(reply.errno));
        }
        let count: usize = reply.rc as usize;
        for i in 0..count
            invariant
                count == reply.rc,
                count <= reply.events@.len(),
                count <= events@.len(),
                events@.len() == old(events)@.len(),
                forall|j: int| 0 <= j < i ==> (#[trigger] events@[j])@ == delivered(reply.events@[j]),
                forall|j: int| i <= j < events@.len() ==> #[trigger] events@[j] == old(events)@[j],
        {
            events[i] = decode(&reply.events[i]);
        }
        Ok(count)
    }
}

/// The event that stands for what the system reports in `entry`.
pub fn decode(entry: &Kevent) -> (event: EpollEvent)
    ensures
        event@ == delivered(*entry),
{
    let mut bits: u32 = 0;
    if entry.filter == EVFILT_READ {
        bits = E_IN;
    } else if entry.filter == EVFILT_WRITE {
        bits = E_OUT;
    }
    proof {
        lemma_or_zero_u32(bits);
        lemma_or_zero_u32(bits | E_HUP);
    }
    if entry.flags & EV_EOF != 0 {
        bits = bits | E_HUP;
    }
    if has_error(entry) {
        bits = bits | E_ERR;
    }
    EpollEvent(MacosEpollEvent { events: bits, u64: entry.udata })
}

/// An event is its mask and its cookie: two events with the same view are the same.
pub proof fn law_event_is_its_view(a: EpollEvent, b: EpollEvent)
    ensures
        a@ == b@ <==> a == b,
{
}

proof fn lemma_operation_flags_known()
    by (bit_vector)
    ensures
        known(E_IN),
        known(E_OUT),
        known(E_ET),
        known(E_ONESHOT),
{
}

proof fn lemma_or_zero_u16(x: u16)
    by (bit_vector)
    ensures
        x | 0 == x,
{
}

proof fn lemma_or_zero_u32(x: u32)
    by (bit_vector)
    ensures
        x | 0 == x,
{
}

} // verus!
