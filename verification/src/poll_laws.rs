//! What someone who polls an event descriptor, or waits on it, gets to see.

use crate::darwin::{EVFILT_READ, EV_CLEAR, EV_ONESHOT};
use crate::epoll::{
    delivered, wait_outcome, ControlOperation, Epoll, EpollEvent, MacosEpollEvent, Opening,
};
use crate::epoll_laws::{
    controlled, deliveries, key, law_add_registers_event, law_change_flags, law_delivered_flags,
    Registration, Registrations,
};
use crate::event_set::{covers, E_ET, E_IN, E_ONESHOT};
use crate::eventfd::{is_addition, EventFd, Writing};
use crate::eventfd_laws::law_write_adds;
use crate::kqueue::KeventReply;
use crate::model::{run, Kernel};
use crate::payload::law_payload_round_trip;
use crate::sys::{Closing, Error, Progress, Reply, SysCall};
use vstd::prelude::*;

verus! {

/// Whether a registration is reported again and again, as long as its descriptor is ready.
pub open spec fn level_triggered(registration: Registration) -> bool {
    registration.flags & EV_CLEAR == 0 && registration.flags & EV_ONESHOT == 0
}

/// Whether `reply` reports as readable what is: no open descriptor that is not, and, as there
/// is room for all of them, every one that is and is registered to be reported as long as
/// it is.
pub open spec fn reports_readable(
    kernel: Kernel,
    regs: Registrations,
    reply: KeventReply,
) -> bool {
    &&& forall|i: int, fd: i32|
        #![trigger reply.events@[i], kernel.readable(fd)]
        0 <= i < reply.rc && kernel.open(fd) && key(reply.events@[i]) == (fd as usize, EVFILT_READ)
            ==> kernel.readable(fd)
    &&& forall|fd: i32|
        {
            &&& kernel.open(fd)
            &&& #[trigger] kernel.readable(fd)
            &&& regs.contains_key((fd as usize, EVFILT_READ))
            &&& level_triggered(regs[(fd as usize, EVFILT_READ)])
        } ==> exists|i: int|
            0 <= i < reply.rc && key(#[trigger] reply.events@[i]) == (fd as usize, EVFILT_READ)
}

/// Whether `cookie` stands for no other descriptor that is registered for reading.
pub open spec fn cookie_is_for(regs: Registrations, cookie: u64, fd: i32) -> bool {
    forall|at: (usize, i16)| #[trigger]
        regs.contains_key(at) && at.1 == EVFILT_READ && regs[at].udata == cookie ==> at.0
            == fd as usize
}

/// The read end is readable exactly if something waits.
pub proof fn law_readable_is_waiting(kernel: Kernel, efd: EventFd)
    requires
        kernel.connects(efd),
    ensures
        kernel.readable(efd.read_fd) <==> kernel.waiting(efd).len() > 0,
{
    assert(kernel.fds.contains_key(efd.write_fd));
}

/// Whether one of the first `n` events says readable and has this cookie.
pub open spec fn says_readable(events: Seq<EpollEvent>, n: int, cookie: u64) -> bool {
    exists|i: int|
        0 <= i < n && (#[trigger] events[i])@.u64 == cookie && covers(events[i]@.events, E_IN)
}

/// A kqueue to which the read end was added for reading, neither edge-triggered nor for one
/// delivery, reports it, with its cookie, exactly as long as something waits to be read.
pub proof fn law_epoll_reports_counter(
    kernel: Kernel,
    efd: EventFd,
    others: Registrations,
    operation: ControlOperation,
    event: MacosEpollEvent,
    reply: KeventReply,
    before: Seq<EpollEvent>,
    result: Result<usize, Error>,
    after: Seq<EpollEvent>,
)
    requires
        kernel.connects(efd),
        operation !is Delete,
        covers(event.events, E_IN),
        !covers(event.events, E_ET),
        !covers(event.events, E_ONESHOT),
        cookie_is_for(others, event.u64, efd.read_fd),
        deliveries(controlled(others, operation, efd.read_fd, event), reply),
        reports_readable(kernel, controlled(others, operation, efd.read_fd, event), reply),
        0 <= reply.rc <= before.len(),
        wait_outcome(reply, before, result, after),
    ensures
        result == Ok::<usize, Error>(reply.rc as usize),
        says_readable(after, reply.rc as int, event.u64) <==> kernel.waiting(efd).len() > 0,
{
    let fd = efd.read_fd;
    let regs = controlled(others, operation, fd, event);
    let at = (fd as usize, EVFILT_READ);
    law_readable_is_waiting(kernel, efd);
    law_change_flags(operation, event.events);
    law_add_registers_event(others, operation, fd, event);
    if kernel.readable(fd) {
        let i = choose|i: int| 0 <= i < reply.rc && key(#[trigger] reply.events@[i]) == at;
        law_delivered_flags(reply.events@[i]);
        assert(after[i]@ == delivered(reply.events@[i]));
    }
    if says_readable(after, reply.rc as int, event.u64) {
        let i = choose|i: int|
            0 <= i < reply.rc && (#[trigger] after[i])@.u64 == event.u64 && covers(
                after[i]@.events,
                E_IN,
            );
        let entry = reply.events@[i];
        law_delivered_flags(entry);
        assert(after[i]@ == delivered(entry));
        assert(regs.contains_key(key(entry)));
        assert(key(entry).0 == fd as usize);
        assert(key(entry) == at);
    }
}

/// Adding to a counter makes such a kqueue report the read end, whatever waited there before.
pub proof fn law_write_is_reported(
    kernel: Kernel,
    efd: EventFd,
    v: u64,
    progress: Progress<Writing, Result<(), Error>>,
    trace: Seq<(Reply, Kernel)>,
    others: Registrations,
    operation: ControlOperation,
    event: MacosEpollEvent,
    reply: KeventReply,
    before: Seq<EpollEvent>,
    result: Result<usize, Error>,
    after: Seq<EpollEvent>,
)
    requires
        kernel.connects(efd),
        is_addition(progress, efd, v),
        run(kernel, progress, trace) is Some,
        (run(kernel, progress, trace)->0).0 is Ok,
        operation !is Delete,
        covers(event.events, E_IN),
        !covers(event.events, E_ET),
        !covers(event.events, E_ONESHOT),
        cookie_is_for(others, event.u64, efd.read_fd),
        deliveries(controlled(others, operation, efd.read_fd, event), reply),
        reports_readable(
            (run(kernel, progress, trace)->0).1,
            controlled(others, operation, efd.read_fd, event),
            reply,
        ),
        0 <= reply.rc <= before.len(),
        wait_outcome(reply, before, result, after),
    ensures
        result == Ok::<usize, Error>(reply.rc as usize),
        says_readable(after, reply.rc as int, event.u64),
{
    let post = (run(kernel, progress, trace)->0).1;
    law_write_adds(kernel, efd, v, progress, trace);
    law_epoll_reports_counter(
        post,
        efd,
        others,
        operation,
        event,
        reply,
        before,
        result,
        after,
    );
}

/// Adding to a counter at which nothing waits makes the read end readable, which it was not:
/// a read that waited there is answered.
pub proof fn law_write_wakes(
    kernel: Kernel,
    efd: EventFd,
    v: u64,
    progress: Progress<Writing, Result<(), Error>>,
    trace: Seq<(Reply, Kernel)>,
)
    requires
        kernel.connects(efd),
        kernel.waiting(efd).len() == 0,
        is_addition(progress, efd, v),
        run(kernel, progress, trace) is Some,
        (run(kernel, progress, trace)->0).0 is Ok,
    ensures
        ({
            let post = (run(kernel, progress, trace)->0).1;
            let read = SysCall::Read { fd: efd.read_fd };
            &&& !kernel.readable(efd.read_fd)
            &&& post.readable(efd.read_fd)
            &&& !kernel.nonblocking(efd.read_fd) ==> forall|reply: Reply, k: Kernel|
                !#[trigger] kernel.answers(read, reply, k)
            &&& exists|reply: Reply, k: Kernel| #[trigger] post.answers(read, reply, k)
        }),
{
    let post = (run(kernel, progress, trace)->0).1;
    let read = SysCall::Read { fd: efd.read_fd };
    law_write_adds(kernel, efd, v, progress, trace);
    law_readable_is_waiting(kernel, efd);
    law_readable_is_waiting(post, efd);
    let inbox = post.waiting(efd);
    law_payload_round_trip(v);
    assert(inbox.len() == 8);
    let payload: [u8; 8] = [
        inbox[0],
        inbox[1],
        inbox[2],
        inbox[3],
        inbox[4],
        inbox[5],
        inbox[6],
        inbox[7],
    ];
    assert(payload@.take(8) =~= inbox.take(8));
    let reply = Reply { rc: 8, errno: 0, pair: (0, 0), payload };
    assert(post.answers(read, reply, post.with_inbox(efd.read_fd, inbox.skip(8))));
}

/// What has arrived at a socket stays until it is read: any other call leaves it at the front
/// of what waits there. So a descriptor that something waits at stays readable.
pub proof fn law_arrived_stays_until_read(
    kernel: Kernel,
    fd: i32,
    call: SysCall,
    reply: Reply,
    post: Kernel,
)
    requires
        kernel.open(fd),
        post.open(fd),
        post.fds[fd].file == kernel.fds[fd].file,
        kernel.answers(call, reply, post),
        match call {
            SysCall::Read { fd: other } => kernel.fds[other].file != kernel.fds[fd].file,
            SysCall::ReadReady { fd: other } => kernel.fds[other].file != kernel.fds[fd].file,
            _ => true,
        },
    ensures
        kernel.socket(fd).inbox.is_prefix_of(post.socket(fd).inbox),
        kernel.socket(fd).inbox.len() > 0 ==> post.readable(fd),
{
}

/// Creating a kqueue handle opens one descriptor, the one that the handle holds, and which
/// was not open before; where it fails nothing changes.
pub proof fn law_epoll_new_opens_queue(kernel: Kernel, trace: Seq<(Reply, Kernel)>)
    requires
        run(
            kernel,
            Progress::<Opening, Result<Epoll, Error>>::Call(SysCall::Kqueue, Opening),
            trace,
        ) is Some,
    ensures
        ({
            let (result, post) = run(
                kernel,
                Progress::<Opening, Result<Epoll, Error>>::Call(SysCall::Kqueue, Opening),
                trace,
            )->0;
            match result {
                Ok(epoll) => {
                    &&& trace[0].0.rc >= 0
                    &&& epoll.kq == trace[0].0.rc
                    &&& !kernel.fds.contains_key(epoll.kq)
                    &&& post.fds.contains_key(epoll.kq)
                    &&& post.fds.remove(epoll.kq) == kernel.fds
                    &&& post.files == kernel.files
                },
                Err(error) => {
                    &&& trace[0].0.rc < 0
                    &&& error == Error::Os(trace[0].0.errno)
                    &&& post == kernel
                },
            }
        }),
{
    reveal_with_fuel(run, 3);
    let (result, post) = run(
        kernel,
        Progress::<Opening, Result<Epoll, Error>>::Call(SysCall::Kqueue, Opening),
        trace,
    )->0;
    if let Ok(epoll) = result {
        assert(post.fds.remove(epoll.kq) =~= kernel.fds);
    }
}

/// Closing a kqueue handle undoes its creation.
pub proof fn law_epoll_close_undoes_new(
    kernel: Kernel,
    opening: Seq<(Reply, Kernel)>,
    closing: Seq<(Reply, Kernel)>,
    epoll: Epoll,
    open: Kernel,
)
    requires
        run(
            kernel,
            Progress::<Opening, Result<Epoll, Error>>::Call(SysCall::Kqueue, Opening),
            opening,
        ) == Some((Ok::<Epoll, Error>(epoll), open)),
        run(
            open,
            Progress::<Closing, ()>::Call(SysCall::Close { fd: epoll.kq }, Closing { rest: None }),
            closing,
        ) is Some,
    ensures
        run(
            open,
            Progress::<Closing, ()>::Call(SysCall::Close { fd: epoll.kq }, Closing { rest: None }),
            closing,
        ) matches Some((_, post)) && post == kernel,
{
    reveal_with_fuel(run, 3);
    law_epoll_new_opens_queue(kernel, opening);
}

} // verus!
