//! What epoll's operations come to on a kqueue.
//!
//! A kqueue is modelled by its registrations. A change to it is answered with a receipt, and a
//! wait with entries for registrations.

use crate::darwin::{
    ENOENT, EVFILT_READ, EVFILT_WRITE, EV_ADD, EV_CLEAR, EV_DELETE, EV_EOF, EV_ERROR, EV_ONESHOT,
    EV_RECEIPT,
};
use crate::epoll::{
    change_flags, ctl_changes, ctl_outcome, delivered, delivered_bits, law_event_is_its_view,
    receipt_fails, reports_error, wait_outcome, wait_timeout, ControlOperation, EpollEvent,
    MacosEpollEvent,
};
use crate::event_set::{covers, known, E_ERR, E_ET, E_HUP, E_IN, E_ONESHOT, E_OUT};
use crate::kqueue::{Kevent, KeventReply};
use crate::sys::Error;
use vstd::prelude::*;

verus! {

/// What a kqueue holds for a descriptor and a filter.
pub ghost struct Registration {
    /// The flags it was registered with.
    pub flags: u16,
    /// The cookie that its events carry.
    pub udata: u64,
}

/// The registrations of a kqueue, by descriptor and filter.
pub type Registrations = Map<(usize, i16), Registration>;

/// What a change is about.
pub open spec fn key(entry: Kevent) -> (usize, i16) {
    (entry.ident, entry.filter)
}

/// The registrations after a change.
pub open spec fn applied(regs: Registrations, entry: Kevent) -> Registrations {
    if entry.flags & EV_DELETE != 0 {
        regs.remove(key(entry))
    } else {
        regs.insert(key(entry), Registration { flags: entry.flags, udata: entry.udata })
    }
}

/// The error number in the receipt of a change: a delete of what is not registered fails.
pub open spec fn receipt_errno(regs: Registrations, entry: Kevent) -> i32 {
    if entry.flags & EV_DELETE != 0 && !regs.contains_key(key(entry)) {
        ENOENT
    } else {
        0
    }
}

/// The registrations after the first `count` changes.
pub open spec fn applied_all(regs: Registrations, changes: Seq<Kevent>, count: int) -> Registrations
    decreases count,
{
    if count <= 0 {
        regs
    } else {
        applied(applied_all(regs, changes, count - 1), changes[count - 1])
    }
}

/// The registrations after a control operation.
pub open spec fn controlled(
    regs: Registrations,
    operation: ControlOperation,
    fd: i32,
    event: MacosEpollEvent,
) -> Registrations {
    let changes = ctl_changes(operation, fd, event);
    applied_all(regs, changes, changes.len() as int)
}

/// Whether `reply` holds the receipts of `changes`.
pub open spec fn receipts(regs: Registrations, changes: Seq<Kevent>, reply: KeventReply) -> bool {
    &&& reply.rc >= 0
    &&& reply.events@.len() == changes.len()
    &&& forall|i: int|
        #![trigger reply.events@[i]]
        0 <= i < changes.len() ==> {
            &&& reply.events@[i].flags & EV_ERROR != 0
            &&& reply.events@[i].data == receipt_errno(applied_all(regs, changes, i), changes[i])
        }
}

proof fn lemma_change_flag_bits()
    by (bit_vector)
    ensures
        (EV_DELETE | EV_RECEIPT) & EV_DELETE != 0,
        (EV_DELETE | EV_RECEIPT) & EV_RECEIPT != 0,
        (EV_DELETE | EV_RECEIPT) & EV_ADD == 0,
        forall|clear: u16, once: u16|
            (clear == 0 || clear == EV_CLEAR) && (once == 0 || once == EV_ONESHOT) ==> {
                let flags = #[trigger] (EV_ADD | EV_RECEIPT | clear | once);
                &&& flags & EV_DELETE == 0
                &&& flags & EV_ADD != 0
                &&& flags & EV_RECEIPT != 0
                &&& flags & EV_CLEAR != 0 <==> clear == EV_CLEAR
                &&& flags & EV_ONESHOT != 0 <==> once == EV_ONESHOT
            },
{
}

/// Every change asks for a receipt. A delete is a delete; any other operation adds,
/// edge-triggered exactly if that is in the mask, and for one delivery exactly if that is.
pub proof fn law_change_flags(operation: ControlOperation, events: u32)
    ensures
        ({
            let flags = change_flags(operation, events);
            &&& flags & EV_RECEIPT != 0
            &&& flags & EV_DELETE != 0 <==> operation is Delete
            &&& flags & EV_ADD != 0 <==> operation !is Delete
            &&& operation !is Delete ==> {
                &&& flags & EV_CLEAR != 0 <==> covers(events, E_ET)
                &&& flags & EV_ONESHOT != 0 <==> covers(events, E_ONESHOT)
            }
        }),
{
    lemma_change_flag_bits();
    let clear: u16 = if covers(events, E_ET) {
        EV_CLEAR
    } else {
        0
    };
    let once: u16 = if covers(events, E_ONESHOT) {
        EV_ONESHOT
    } else {
        0
    };
    if operation !is Delete {
        assert(change_flags(operation, events) == EV_ADD | EV_RECEIPT | clear | once);
    }
}

/// The flags of a change, as numbers: a delete that asks for a receipt, or an addition that
/// does, with the flags for the two modes that the mask can ask for, and no other flag.
pub proof fn law_change_flags_exact(operation: ControlOperation, events: u32)
    ensures
        change_flags(operation, events) == match operation {
            ControlOperation::Delete => 0x42int,
            _ => 0x41 + (if events & 0x8000_0000 != 0 {
                0x20int
            } else {
                0
            }) + (if events & 0x4000_0000 != 0 {
                0x10int
            } else {
                0
            }),
        },
{
    assert(0x02u16 | 0x40u16 == 0x42) by (bit_vector);
    assert(0x01u16 | 0x40u16 | 0u16 | 0u16 == 0x41) by (bit_vector);
    assert(0x01u16 | 0x40u16 | 0x20u16 | 0u16 == 0x61) by (bit_vector);
    assert(0x01u16 | 0x40u16 | 0u16 | 0x10u16 == 0x51) by (bit_vector);
    assert(0x01u16 | 0x40u16 | 0x20u16 | 0x10u16 == 0x71) by (bit_vector);
    lemma_single_bits(events);
}

proof fn lemma_single_bits(events: u32)
    by (bit_vector)
    ensures
        events & 0x1 == 0x1 <==> events & 0x1 != 0,
        events & 0x4 == 0x4 <==> events & 0x4 != 0,
        events & 0x4000_0000 == 0x4000_0000 <==> events & 0x4000_0000 != 0,
        events & 0x8000_0000 == 0x8000_0000 <==> events & 0x8000_0000 != 0,
{
}

/// The changes that a control operation asks for, field by field. There is one for reading,
/// which comes first, if bit 0 of the mask is set, and one for writing if bit 2 is; a delete
/// has both. Each is about the descriptor, carries the cookie, and has nothing else set.
pub proof fn law_ctl_changes_exact(operation: ControlOperation, fd: i32, event: MacosEpollEvent)
    ensures
        ({
            let changes = ctl_changes(operation, fd, event);
            let read = operation == ControlOperation::Delete || event.events & 0x1 != 0;
            let write = operation == ControlOperation::Delete || event.events & 0x4 != 0;
            &&& changes.len() == (if read {
                1int
            } else {
                0
            }) + (if write {
                1int
            } else {
                0
            })
            &&& read ==> changes[0].filter == -1
            &&& write ==> changes.last().filter == -2
            &&& forall|i: int|
                #![trigger changes[i]]
                0 <= i < changes.len() ==> {
                    &&& changes[i].ident == fd as usize
                    &&& changes[i].flags == match operation {
                        ControlOperation::Delete => 0x42int,
                        _ => 0x41 + (if event.events & 0x8000_0000 != 0 {
                            0x20int
                        } else {
                            0
                        }) + (if event.events & 0x4000_0000 != 0 {
                            0x10int
                        } else {
                            0
                        }),
                    }
                    &&& changes[i].fflags == 0
                    &&& changes[i].data == 0
                    &&& changes[i].udata == event.u64
                }
        }),
{
    law_change_flags_exact(operation, event.events);
    lemma_single_bits(event.events);
}

/// A control operation succeeds exactly if its `kevent` call did and no receipt holds an
/// error: bit 14 of the flags and data that is not 0, whatever else the receipt holds. The one
/// error that does not count is 2, no such registration, on a delete. Where it fails, it is
/// with the error of the call, or with that of the first receipt that holds one.
pub proof fn law_ctl_fails_with_first_error(
    operation: ControlOperation,
    reply: KeventReply,
    result: Result<(), Error>,
)
    requires
        ctl_outcome(operation, reply, result),
    ensures
        reply.rc < 0 ==> result == Err::<(), Error>(Error::Os(reply.errno)),
        reply.rc >= 0 ==> (result is Ok <==> forall|i: int|
            #![trigger reply.events@[i]]
            0 <= i < reply.events@.len() ==> {
                ||| reply.events@[i].flags & 0x4000 == 0
                ||| reply.events@[i].data == 0
                ||| operation == ControlOperation::Delete && reply.events@[i].data as i32 == 2
            }),
        reply.rc >= 0 ==> forall|i: int|
            #![trigger reply.events@[i]]
            {
                &&& 0 <= i < reply.events@.len()
                &&& reply.events@[i].flags & 0x4000 != 0
                &&& reply.events@[i].data != 0
                &&& !(operation == ControlOperation::Delete && reply.events@[i].data as i32 == 2)
                &&& forall|j: int|
                    #![trigger reply.events@[j]]
                    0 <= j < i ==> {
                        ||| reply.events@[j].flags & 0x4000 == 0
                        ||| reply.events@[j].data == 0
                        ||| operation == ControlOperation::Delete && reply.events@[j].data as i32
                            == 2
                    }
            } ==> result == Err::<(), Error>(Error::Os(reply.events@[i].data as i32)),
{
    if reply.rc >= 0 {
        match result {
            Ok(()) => {
                assert forall|i: int|
                    #![trigger reply.events@[i]]
                    0 <= i < reply.events@.len() implies {
                    ||| reply.events@[i].flags & 0x4000 == 0
                    ||| reply.events@[i].data == 0
                    ||| operation == ControlOperation::Delete && reply.events@[i].data as i32 == 2
                } by {
                    assert(!receipt_fails(operation, reply.events@[i]));
                }
            },
            Err(error) => {
                let first = choose|i: int|
                    {
                        &&& 0 <= i < reply.events@.len()
                        &&& receipt_fails(operation, #[trigger] reply.events@[i])
                        &&& error == Error::Os(reply.events@[i].data as i32)
                        &&& forall|j: int|
                            0 <= j < i ==> !receipt_fails(operation, #[trigger] reply.events@[j])
                    };
                assert(receipt_fails(operation, reply.events@[first]));
                assert(reply.events@[first].flags & 0x4000 != 0);
                assert(reply.events@[first].data != 0);
            },
        }
    }
}

/// Whether `reply` holds the receipts of `changes`, of which the one with index `i` was
/// refused with the error number `errnos[i]`, or accepted if that is 0: each echoes its change,
/// marked as a receipt.
pub open spec fn echoes(changes: Seq<Kevent>, errnos: Seq<i32>, reply: KeventReply) -> bool {
    &&& reply.rc >= 0
    &&& reply.events@.len() == changes.len()
    &&& errnos.len() == changes.len()
    &&& forall|i: int|
        #![trigger reply.events@[i]]
        0 <= i < changes.len() ==> reply.events@[i] == (Kevent {
            flags: changes[i].flags | 0x4000,
            data: errnos[i] as isize,
            ..changes[i]
        })
}

proof fn lemma_receipt_mark(flags: u16)
    by (bit_vector)
    ensures
        (flags | 0x4000) & 0x4000 != 0,
{
}

proof fn lemma_errno_through_data(errno: i32)
    by (bit_vector)
    ensures
        (errno as isize) as i32 == errno,
{
}

/// Where the system refuses a change of a control operation, with whatever error number, the
/// operation fails with the number of the first refusal; it succeeds exactly if none of its
/// changes was refused. Refusing a delete because there is no such registration does not
/// count.
pub proof fn law_ctl_reports_first_refusal(
    operation: ControlOperation,
    fd: i32,
    event: MacosEpollEvent,
    errnos: Seq<i32>,
    reply: KeventReply,
    result: Result<(), Error>,
)
    requires
        echoes(ctl_changes(operation, fd, event), errnos, reply),
        ctl_outcome(operation, reply, result),
    ensures
        result is Ok <==> forall|i: int|
            0 <= i < errnos.len() ==> #[trigger] errnos[i] == 0 || (operation
                == ControlOperation::Delete && errnos[i] == 2),
        forall|i: int|
            {
                &&& 0 <= i < errnos.len()
                &&& #[trigger] errnos[i] != 0
                &&& !(operation == ControlOperation::Delete && errnos[i] == 2)
                &&& forall|j: int|
                    0 <= j < i ==> #[trigger] errnos[j] == 0 || (operation
                        == ControlOperation::Delete && errnos[j] == 2)
            } ==> result == Err::<(), Error>(Error::Os(errnos[i])),
{
    let changes = ctl_changes(operation, fd, event);
    law_ctl_fails_with_first_error(operation, reply, result);
    assert forall|i: int| 0 <= i < errnos.len() implies {
        &&& (#[trigger] reply.events@[i]).flags & 0x4000 != 0
        &&& reply.events@[i].data as i32 == errnos[i]
        &&& reply.events@[i].data == 0 <==> errnos[i] == 0
    } by {
        lemma_receipt_mark(changes[i].flags);
        lemma_errno_through_data(errnos[i]);
    }
    if result is Ok {
        assert forall|i: int| 0 <= i < errnos.len() implies #[trigger] errnos[i] == 0 || (operation
            == ControlOperation::Delete && errnos[i] == 2) by {
            let receipt = reply.events@[i];
        }
    }
    assert forall|i: int|
        {
            &&& 0 <= i < errnos.len()
            &&& #[trigger] errnos[i] != 0
            &&& !(operation == ControlOperation::Delete && errnos[i] == 2)
            &&& forall|j: int|
                0 <= j < i ==> #[trigger] errnos[j] == 0 || (operation == ControlOperation::Delete
                    && errnos[j] == 2)
        } implies result == Err::<(), Error>(Error::Os(errnos[i])) by {
        let receipt = reply.events@[i];
        assert forall|j: int|
            #![trigger reply.events@[j]]
            0 <= j < i implies {
            ||| reply.events@[j].flags & 0x4000 == 0
            ||| reply.events@[j].data == 0
            ||| operation == ControlOperation::Delete && reply.events@[j].data as i32 == 2
        } by {
            assert(errnos[j] == 0 || (operation == ControlOperation::Delete && errnos[j] == 2));
        }
    }
}

/// A delivered event, field by field: it has the cookie of its entry, and in its mask bit 0
/// for the filter -1, bit 2 for the filter -2, bit 4 for bit 15 of the flags, bit 3 for bit 14
/// of the flags beside data that is not 0, and no other bit.
pub proof fn law_delivered_exact(entry: Kevent)
    ensures
        delivered(entry).u64 == entry.udata,
        delivered(entry).events == (if entry.filter == -1 {
            0x1int
        } else if entry.filter == -2 {
            0x4
        } else {
            0
        }) + (if entry.flags & 0x8000 != 0 {
            0x10int
        } else {
            0
        }) + (if entry.flags & 0x4000 != 0 && entry.data != 0 {
            0x8int
        } else {
            0
        }),
{
    lemma_mask_sums();
}

/// What a wait gives, field by field. A call that failed gives its error, but none, and no
/// event, if that is 4, interrupted. Otherwise as many events are written as the call
/// reported, in its order: each has the cookie of its entry, and in its mask bit 0 for the
/// filter -1, bit 2 for the filter -2, bit 4 for bit 15 of the flags, bit 3 for bit 14 of the
/// flags beside data that is not 0, and no other bit. The rest stays as it was.
pub proof fn law_wait_exact(
    reply: KeventReply,
    before: Seq<EpollEvent>,
    result: Result<usize, Error>,
    after: Seq<EpollEvent>,
)
    requires
        reply.rc <= reply.events@.len(),
        reply.rc <= before.len(),
        wait_outcome(reply, before, result, after),
    ensures
        reply.rc >= 0 ==> (result matches Ok(n) && n == reply.rc),
        reply.rc < 0 && reply.errno == 4 ==> (result matches Ok(n) && n == 0),
        reply.rc < 0 && reply.errno != 4 ==> result == Err::<usize, Error>(Error::Os(reply.errno)),
        after.len() == before.len(),
        forall|i: int|
            #![trigger after[i]]
            0 <= i < reply.rc ==> {
                let entry = reply.events@[i];
                &&& after[i]@.u64 == entry.udata
                &&& after[i]@.events == (if entry.filter == -1 {
                    0x1int
                } else if entry.filter == -2 {
                    0x4
                } else {
                    0
                }) + (if entry.flags & 0x8000 != 0 {
                    0x10int
                } else {
                    0
                }) + (if entry.flags & 0x4000 != 0 && entry.data != 0 {
                    0x8int
                } else {
                    0
                })
            },
        forall|i: int|
            #![trigger after[i]]
            0 <= i < after.len() && i >= reply.rc ==> after[i] == before[i],
{
    lemma_mask_sums();
    assert forall|i: int| 0 <= i < reply.rc implies (#[trigger] after[i])@ == delivered(
        reply.events@[i],
    ) by {
        law_delivered_exact(reply.events@[i]);
    }
    assert forall|i: int|
        #![trigger after[i]]
        0 <= i < after.len() && i >= reply.rc implies after[i] == before[i] by {
        law_event_is_its_view(after[i], before[i]);
    }
}

proof fn lemma_mask_sums()
    by (bit_vector)
    ensures
        forall|ready: u32, hup: u32, err: u32|
            (ready == 0 || ready == 0x1 || ready == 0x4) && (hup == 0 || hup == 0x10) && (err == 0
                || err == 0x8) ==> #[trigger] (ready | hup | err) == ready + hup + err,
{
}

/// Modifying is adding: the changes are the same, and so is what their receipts mean.
pub proof fn law_modify_is_add(
    fd: i32,
    event: MacosEpollEvent,
    reply: KeventReply,
    result: Result<(), Error>,
)
    ensures
        ctl_changes(ControlOperation::Modify, fd, event) == ctl_changes(
            ControlOperation::Add,
            fd,
            event,
        ),
        ctl_outcome(ControlOperation::Modify, reply, result) <==> ctl_outcome(
            ControlOperation::Add,
            reply,
            result,
        ),
{
}

/// What `post` holds for `fd` and `filter` after an operation that is no delete: where the
/// mask holds `flag`, a registration that carries the cookie of the event; otherwise what
/// `regs` held.
pub open spec fn registers(
    regs: Registrations,
    post: Registrations,
    operation: ControlOperation,
    fd: i32,
    event: MacosEpollEvent,
    flag: u32,
    filter: i16,
) -> bool {
    let at = (fd as usize, filter);
    if covers(event.events, flag) {
        &&& post.contains_key(at)
        &&& post[at] == Registration {
            flags: change_flags(operation, event.events),
            udata: event.u64,
        }
    } else {
        &&& post.contains_key(at) == regs.contains_key(at)
        &&& regs.contains_key(at) ==> post[at] == regs[at]
    }
}

/// Whether the two agree but for the read and write filters of `fd`.
pub open spec fn same_elsewhere(regs: Registrations, post: Registrations, fd: i32) -> bool {
    forall|at: (usize, i16)|
        #![trigger post.contains_key(at)]
        at != (fd as usize, EVFILT_READ) && at != (fd as usize, EVFILT_WRITE) ==> {
            &&& post.contains_key(at) == regs.contains_key(at)
            &&& regs.contains_key(at) ==> post[at] == regs[at]
        }
}

proof fn lemma_errno_survives()
    by (bit_vector)
    ensures
        2isize as i32 == 2i32,
{
}

/// What an operation that is no delete does to the registrations: each filter that the mask
/// asks for is registered with the cookie of the event, and nothing else changes.
pub proof fn law_add_registers_event(
    regs: Registrations,
    operation: ControlOperation,
    fd: i32,
    event: MacosEpollEvent,
)
    requires
        operation !is Delete,
    ensures
        registers(
            regs,
            controlled(regs, operation, fd, event),
            operation,
            fd,
            event,
            E_IN,
            EVFILT_READ,
        ),
        registers(
            regs,
            controlled(regs, operation, fd, event),
            operation,
            fd,
            event,
            E_OUT,
            EVFILT_WRITE,
        ),
        same_elsewhere(regs, controlled(regs, operation, fd, event), fd),
{
    law_change_flags(operation, event.events);
    reveal_with_fuel(applied_all, 3);
}

proof fn lemma_controlled_by_delete(regs: Registrations, fd: i32, event: MacosEpollEvent)
    ensures
        ({
            let post = controlled(regs, ControlOperation::Delete, fd, event);
            &&& !post.contains_key((fd as usize, EVFILT_READ))
            &&& !post.contains_key((fd as usize, EVFILT_WRITE))
            &&& same_elsewhere(regs, post, fd)
        }),
{
    law_change_flags(ControlOperation::Delete, event.events);
    reveal_with_fuel(applied_all, 3);
}

/// Adding or modifying registers the read filter exactly if [`E_IN`] is in the mask and the
/// write filter exactly if [`E_OUT`] is, with the event's cookie; a filter whose flag is not
/// in the mask stays as it was, and so does everything else. The operation succeeds.
pub proof fn law_add_registers(
    regs: Registrations,
    operation: ControlOperation,
    fd: i32,
    event: MacosEpollEvent,
    reply: KeventReply,
    result: Result<(), Error>,
)
    requires
        operation !is Delete,
        receipts(regs, ctl_changes(operation, fd, event), reply),
        ctl_outcome(operation, reply, result),
    ensures
        registers(
            regs,
            controlled(regs, operation, fd, event),
            operation,
            fd,
            event,
            E_IN,
            EVFILT_READ,
        ),
        registers(
            regs,
            controlled(regs, operation, fd, event),
            operation,
            fd,
            event,
            E_OUT,
            EVFILT_WRITE,
        ),
        same_elsewhere(regs, controlled(regs, operation, fd, event), fd),
        result is Ok,
{
    law_add_registers_event(regs, operation, fd, event);
    law_change_flags(operation, event.events);
}

/// Deleting leaves no registration of the descriptor for reading or writing, and everything
/// else as it was. It succeeds, whichever filters were registered before, even if none was.
pub proof fn law_delete_unregisters(
    regs: Registrations,
    fd: i32,
    event: MacosEpollEvent,
    reply: KeventReply,
    result: Result<(), Error>,
)
    requires
        receipts(regs, ctl_changes(ControlOperation::Delete, fd, event), reply),
        ctl_outcome(ControlOperation::Delete, reply, result),
    ensures
        ({
            let post = controlled(regs, ControlOperation::Delete, fd, event);
            &&& !post.contains_key((fd as usize, EVFILT_READ))
            &&& !post.contains_key((fd as usize, EVFILT_WRITE))
            &&& same_elsewhere(regs, post, fd)
        }),
        result is Ok,
{
    lemma_controlled_by_delete(regs, fd, event);
    lemma_errno_survives();
}

proof fn lemma_delivered_bits(ready: u32, hup: u32, err: u32)
    by (bit_vector)
    requires
        ready == 0 || ready == E_IN || ready == E_OUT,
        hup == 0 || hup == E_HUP,
        err == 0 || err == E_ERR,
    ensures
        covers(ready | hup | err, E_IN) <==> ready == E_IN,
        covers(ready | hup | err, E_OUT) <==> ready == E_OUT,
        covers(ready | hup | err, E_HUP) <==> hup == E_HUP,
        covers(ready | hup | err, E_ERR) <==> err == E_ERR,
        known(ready | hup | err),
        (ready | hup | err) & !(E_IN | E_OUT | E_HUP | E_ERR) == 0,
{
}

/// A delivered event carries the cookie of what it is delivered for, and its mask says what
/// the system reported: readable, writable, the peer gone, an error, and nothing else.
pub proof fn law_delivered_flags(entry: Kevent)
    ensures
        ({
            let event = delivered(entry);
            &&& event.u64 == entry.udata
            &&& covers(event.events, E_IN) <==> entry.filter == EVFILT_READ
            &&& covers(event.events, E_OUT) <==> entry.filter == EVFILT_WRITE
            &&& covers(event.events, E_HUP) <==> entry.flags & EV_EOF != 0
            &&& covers(event.events, E_ERR) <==> entry.flags & EV_ERROR != 0 && entry.data != 0
            &&& event.events & !(E_IN | E_OUT | E_HUP | E_ERR) == 0
            &&& known(event.events)
        }),
{
    let ready: u32 = if entry.filter == EVFILT_READ {
        E_IN
    } else if entry.filter == EVFILT_WRITE {
        E_OUT
    } else {
        0
    };
    let hup: u32 = if entry.flags & EV_EOF != 0 {
        E_HUP
    } else {
        0
    };
    let err: u32 = if reports_error(entry) {
        E_ERR
    } else {
        0
    };
    lemma_delivered_bits(ready, hup, err);
    assert(delivered_bits(entry) == ready | hup | err);
}

/// The cookie comes back: what is delivered for a filter that an operation registered
/// carries the cookie of that operation's event, and a flag that the event asked for.
pub proof fn law_cookie_comes_back(
    regs: Registrations,
    operation: ControlOperation,
    fd: i32,
    event: MacosEpollEvent,
    entry: Kevent,
)
    requires
        operation !is Delete,
        entry.ident == fd as usize,
        entry.filter == EVFILT_READ && covers(event.events, E_IN) || entry.filter == EVFILT_WRITE
            && covers(event.events, E_OUT),
        entry.udata == controlled(regs, operation, fd, event)[key(entry)].udata,
    ensures
        delivered(entry).u64 == event.u64,
        covers(delivered(entry).events, E_IN) ==> covers(event.events, E_IN),
        covers(delivered(entry).events, E_OUT) ==> covers(event.events, E_OUT),
        covers(delivered(entry).events, E_IN) || covers(delivered(entry).events, E_OUT),
{
    law_change_flags(operation, event.events);
    law_delivered_flags(entry);
    reveal_with_fuel(applied_all, 3);
}

/// A control operation and what it was applied to.
pub ghost struct Control {
    /// The operation.
    pub operation: ControlOperation,
    /// The descriptor.
    pub fd: i32,
    /// The event.
    pub event: MacosEpollEvent,
}

/// The registrations that successful control operations on a new kqueue come to.
pub open spec fn registered(ops: Seq<Control>) -> Registrations
    decreases ops.len(),
{
    if ops.len() == 0 {
        Map::empty()
    } else {
        let op = ops.last();
        controlled(registered(ops.drop_last()), op.operation, op.fd, op.event)
    }
}

/// Whether `reply` is an answer of a kqueue with these registrations to a wait: what it
/// reports, it reports for registrations, with their cookies.
pub open spec fn deliveries(regs: Registrations, reply: KeventReply) -> bool {
    &&& reply.rc <= reply.events@.len()
    &&& forall|i: int|
        #![trigger reply.events@[i]]
        0 <= i < reply.rc ==> {
            &&& regs.contains_key(key(reply.events@[i]))
            &&& reply.events@[i].udata == regs[key(reply.events@[i])].udata
        }
}

/// Whether the registration for `at` is due to `op`: an operation on that descriptor that is
/// no delete, whose event has the cookie of the registration and asks for that filter.
pub open spec fn due_to(at: (usize, i16), udata: u64, op: Control) -> bool {
    &&& op.operation !is Delete
    &&& at.0 == op.fd as usize
    &&& udata == op.event.u64
    &&& at.1 == EVFILT_READ && covers(op.event.events, E_IN) || at.1 == EVFILT_WRITE && covers(
        op.event.events,
        E_OUT,
    )
}

/// Every registration is due to one of the operations.
pub proof fn law_registrations_are_due_to_operations(ops: Seq<Control>, at: (usize, i16))
    requires
        registered(ops).contains_key(at),
    ensures
        exists|j: int|
            0 <= j < ops.len() && due_to(at, registered(ops)[at].udata, #[trigger] ops[j]),
    decreases ops.len(),
{
    let op = ops.last();
    let before = registered(ops.drop_last());
    let last = ops.len() - 1;
    if op.operation is Delete {
        lemma_controlled_by_delete(before, op.fd, op.event);
    } else {
        law_add_registers_event(before, op.operation, op.fd, op.event);
    }
    if due_to(at, registered(ops)[at].udata, op) {
        assert(due_to(at, registered(ops)[at].udata, ops[last]));
    } else {
        assert(before.contains_key(at) && before[at] == registered(ops)[at]);
        law_registrations_are_due_to_operations(ops.drop_last(), at);
        let j = choose|j: int|
            0 <= j < ops.drop_last().len() && due_to(
                at,
                before[at].udata,
                #[trigger] ops.drop_last()[j],
            );
        assert(due_to(at, registered(ops)[at].udata, ops[j]));
    }
}

/// Whether `event` answers what `op` asked for: it has the cookie of that operation's event,
/// and it says readable, or writable, only if that event asked for it.
pub open spec fn answers_request(event: MacosEpollEvent, op: Control) -> bool {
    &&& op.operation !is Delete
    &&& event.u64 == op.event.u64
    &&& covers(event.events, E_IN) ==> covers(op.event.events, E_IN)
    &&& covers(event.events, E_OUT) ==> covers(op.event.events, E_OUT)
    &&& covers(event.events, E_IN) || covers(event.events, E_OUT)
}

/// Every event that a wait delivers answers what one of the control operations asked for.
/// The system may have dropped registrations by itself, such as one-shot ones.
pub proof fn law_wait_delivers_cookies(
    ops: Seq<Control>,
    regs: Registrations,
    reply: KeventReply,
    before: Seq<EpollEvent>,
    result: Result<usize, Error>,
    after: Seq<EpollEvent>,
)
    requires
        regs.submap_of(registered(ops)),
        deliveries(regs, reply),
        reply.rc <= before.len(),
        wait_outcome(reply, before, result, after),
    ensures
        result matches Ok(n) ==> forall|i: int|
            0 <= i < n ==> exists|j: int|
                0 <= j < ops.len() && answers_request(
                    (#[trigger] after[i])@,
                    #[trigger] ops[j],
                ),
{
    if result is Ok {
        assert forall|i: int| 0 <= i < result->Ok_0 implies exists|j: int|
            0 <= j < ops.len() && answers_request(
                (#[trigger] after[i])@,
                #[trigger] ops[j],
            ) by {
            let j = lemma_delivered_for(ops, regs, reply, i);
            assert(after[i]@ == delivered(reply.events@[i]));
            assert(answers_request(after[i]@, ops[j]));
        }
    }
}

proof fn lemma_delivered_for(
    ops: Seq<Control>,
    regs: Registrations,
    reply: KeventReply,
    i: int,
) -> (j: int)
    requires
        regs.submap_of(registered(ops)),
        deliveries(regs, reply),
        0 <= i < reply.rc,
    ensures
        0 <= j < ops.len(),
        due_to(key(reply.events@[i]), reply.events@[i].udata, ops[j]),
        answers_request(delivered(reply.events@[i]), ops[j]),
        registered(ops).contains_key(key(reply.events@[i])),
{
    let entry = reply.events@[i];
    let at = key(entry);
    assert(regs.dom().contains(at));
    assert(registered(ops).contains_key(at) && registered(ops)[at] == regs[at]);
    law_registrations_are_due_to_operations(ops, at);
    law_delivered_flags(entry);
    choose|j: int| 0 <= j < ops.len() && due_to(at, registered(ops)[at].udata, #[trigger] ops[j])
}

/// Where a kqueue was given one registration only, every event that a wait delivers has its
/// cookie, and says readable, or writable, only if that was asked for.
pub proof fn law_only_cookie_is_delivered(
    op: Control,
    regs: Registrations,
    reply: KeventReply,
    before: Seq<EpollEvent>,
    result: Result<usize, Error>,
    after: Seq<EpollEvent>,
)
    requires
        regs.submap_of(registered(seq![op])),
        deliveries(regs, reply),
        reply.rc <= before.len(),
        wait_outcome(reply, before, result, after),
    ensures
        result matches Ok(n) ==> forall|i: int|
            0 <= i < n ==> answers_request((#[trigger] after[i])@, op),
{
    if result is Ok {
        assert forall|i: int| 0 <= i < result->Ok_0 implies answers_request(
            (#[trigger] after[i])@,
            op,
        ) by {
            let j = lemma_delivered_for(seq![op], regs, reply, i);
            assert(after[i]@ == delivered(reply.events@[i]));
        }
    }
}

proof fn lemma_ident_is_descriptor(a: i32, b: i32)
    by (bit_vector)
    ensures
        a as usize == b as usize ==> a == b,
{
}

proof fn lemma_deleted_stays_out(ops: Seq<Control>, d: int)
    requires
        0 <= d < ops.len(),
        ops[d].operation is Delete,
        forall|j: int| d < j < ops.len() ==> (#[trigger] ops[j]).fd != ops[d].fd,
    ensures
        !registered(ops).contains_key((ops[d].fd as usize, EVFILT_READ)),
        !registered(ops).contains_key((ops[d].fd as usize, EVFILT_WRITE)),
    decreases ops.len(),
{
    let op = ops.last();
    let earlier = ops.drop_last();
    if op.operation is Delete {
        lemma_controlled_by_delete(registered(earlier), op.fd, op.event);
    } else {
        law_add_registers_event(registered(earlier), op.operation, op.fd, op.event);
    }
    if d < ops.len() - 1 {
        assert(earlier[d] == ops[d]);
        lemma_deleted_stays_out(earlier, d);
        lemma_ident_is_descriptor(op.fd, ops[d].fd);
    }
}

/// Nothing is delivered for a descriptor after it was deleted: where the last operation on it
/// was a delete, and its cookie was used for no other descriptor, no event that a wait
/// delivers has that cookie.
pub proof fn law_nothing_delivered_after_delete(
    ops: Seq<Control>,
    d: int,
    cookie: u64,
    regs: Registrations,
    reply: KeventReply,
    before: Seq<EpollEvent>,
    result: Result<usize, Error>,
    after: Seq<EpollEvent>,
)
    requires
        0 <= d < ops.len(),
        ops[d].operation is Delete,
        forall|j: int| d < j < ops.len() ==> (#[trigger] ops[j]).fd != ops[d].fd,
        forall|j: int|
            0 <= j < ops.len() && (#[trigger] ops[j]).operation !is Delete && ops[j].event.u64
                == cookie ==> ops[j].fd == ops[d].fd,
        regs.submap_of(registered(ops)),
        deliveries(regs, reply),
        reply.rc <= before.len(),
        wait_outcome(reply, before, result, after),
    ensures
        result matches Ok(n) ==> forall|i: int| 0 <= i < n ==> (#[trigger] after[i])@.u64 != cookie,
{
    lemma_deleted_stays_out(ops, d);
    if result is Ok {
        assert forall|i: int| 0 <= i < result->Ok_0 implies (#[trigger] after[i])@.u64
            != cookie by {
            let j = lemma_delivered_for(ops, regs, reply, i);
            assert(after[i]@ == delivered(reply.events@[i]));
        }
    }
}

/// The span to wait for is exactly `timeout` milliseconds, in whole seconds and a rest below
/// one second; it is unlimited exactly if `timeout` is negative.
pub proof fn law_timeout_exact(timeout: i32)
    ensures
        wait_timeout(timeout) is None <==> timeout < 0,
        wait_timeout(timeout) matches Some(span) ==> {
            &&& span.tv_sec * 1_000_000_000 + span.tv_nsec == timeout * 1_000_000
            &&& 0 <= span.tv_nsec < 1_000_000_000
            &&& 0 <= span.tv_sec
        },
{
}

} // verus!
