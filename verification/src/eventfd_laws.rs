//! What the operations on event descriptors come to.
//!
//! Each law takes a run of an operation on the [model](crate::model) of the system, whatever
//! the replies were, and says how the result and the state after it follow from the state
//! before it.

use crate::darwin::{EAGAIN, FD_CLOEXEC, O_NONBLOCK};
use crate::eventfd::{
    adjustments, closing, creation, drain, duplication, is_addition, next_read, release, wrapped,
    Creating, Draining, EventFd, Writing, EFD_CLOEXEC, EFD_NONBLOCK,
};
use crate::model::{payloads, run, sum, Kernel};
use crate::payload::{law_eight_bytes_are_payload, law_payload_round_trip, number, payload};
use crate::sys::{Error, Machine, Progress, Reply, SysCall};
use vstd::prelude::*;

verus! {

proof fn lemma_payloads_front(vs: Seq<u64>)
    requires
        vs.len() > 0,
    ensures
        payloads(vs) == payload(vs[0]) + payloads(vs.drop_first()),
        sum(vs) == vs[0] + sum(vs.drop_first()),
    decreases vs.len(),
{
    if vs.len() == 1 {
        assert(vs.drop_last() =~= Seq::<u64>::empty());
        assert(vs.drop_first() =~= Seq::<u64>::empty());
        assert(payloads(vs) =~= payload(vs[0]) + payloads(vs.drop_first()));
    } else {
        lemma_payloads_front(vs.drop_last());
        assert(vs.drop_last().drop_first() =~= vs.drop_first().drop_last());
        assert(payloads(vs) =~= payload(vs[0]) + payloads(vs.drop_first()));
    }
}

/// The counter value that the increments `vs` come to.
pub open spec fn counter(vs: Seq<u64>) -> u64 {
    (sum(vs) % 0x1_0000_0000_0000_0000) as u64
}

/// The result of draining a counter with this value. `cut` says that what follows its
/// increments is the part of a payload or the end of the stream, and not just nothing yet.
pub open spec fn drained(value: u64, cut: bool) -> Result<u64, Error> {
    if value == 0 && !cut {
        Err(Error::Os(EAGAIN))
    } else {
        Ok(value)
    }
}

proof fn lemma_inbox_keeps_peer(kernel: Kernel, fd: i32, inbox: Seq<u8>)
    ensures
        kernel.with_inbox(fd, inbox).peer_open(fd) == kernel.peer_open(fd),
{
    let post = kernel.with_inbox(fd, inbox);
    assert(post.socket(fd).peer == kernel.socket(fd).peer);
    if kernel.peer_open(fd) {
        let other = choose|other: i32| #[trigger]
            kernel.fds.contains_key(other) && kernel.fds[other].file == kernel.socket(fd).peer;
        assert(post.fds.contains_key(other));
    }
    if post.peer_open(fd) {
        let other = choose|other: i32| #[trigger]
            post.fds.contains_key(other) && post.fds[other].file == post.socket(fd).peer;
        assert(kernel.fds.contains_key(other));
    }
}

proof fn lemma_drain(
    kernel: Kernel,
    machine: Draining,
    vs: Seq<u64>,
    tail: Seq<u8>,
    trace: Seq<(Reply, Kernel)>,
)
    requires
        kernel.open(machine.fd),
        kernel.socket(machine.fd).inbox == payloads(vs) + tail,
        tail.len() < 8,
        run(kernel, Progress::Call(next_read(machine.fd, machine.total), machine), trace) is Some,
    ensures
        run(kernel, Progress::Call(next_read(machine.fd, machine.total), machine), trace) == Some(
            (
                drained(
                    ((machine.total + sum(vs)) % 0x1_0000_0000_0000_0000) as u64,
                    tail.len() > 0 || !kernel.peer_open(machine.fd),
                ),
                kernel.with_inbox(machine.fd, seq![]),
            ),
        ),
    decreases vs.len(),
{
    let (reply, post) = trace[0];
    let fd = machine.fd;
    let inbox = kernel.socket(fd).inbox;
    assert(kernel.answers_read(fd, reply, post));
    if vs.len() == 0 {
        assert(inbox =~= tail);
        assert(tail.skip(tail.len() as int) =~= seq![]);
        assert(post.files =~= kernel.with_inbox(fd, seq![]).files);
        assert(run(post, machine.next(reply), trace.drop_first()) is Some);
    } else {
        let v = vs[0];
        let rest = vs.drop_first();
        lemma_payloads_front(vs);
        law_payload_round_trip(v);
        assert(inbox.take(8) =~= payload(v));
        assert(inbox.skip(8) =~= payloads(rest) + tail);
        assert(reply.payload@.take(8) =~= reply.payload@);
        let total = ((machine.total + v) % 0x1_0000_0000_0000_0000) as u64;
        let next = Draining { fd, total };
        assert(machine.next(reply) == Progress::<Draining, Result<u64, Error>>::Call(
            next_read(fd, total),
            next,
        ));
        lemma_inbox_keeps_peer(kernel, fd, inbox.skip(8));
        lemma_drain(post, next, rest, tail, trace.drop_first());
        assert(post.with_inbox(fd, seq![]).files =~= kernel.with_inbox(fd, seq![]).files);
    }
}

/// Reading drains the counter: it returns the sum of all increments that wait, modulo 2 to
/// the 64, and leaves none. Where that is 0 it fails as a read of an empty socket does. The
/// part of a payload behind them, if there is one, is dropped; after it, or where the other
/// end is closed, a sum of 0 is returned like any other. Nothing else changes.
pub proof fn law_read_returns_sum(
    kernel: Kernel,
    efd: EventFd,
    vs: Seq<u64>,
    tail: Seq<u8>,
    trace: Seq<(Reply, Kernel)>,
)
    requires
        kernel.open(efd.read_fd),
        kernel.waiting(efd) == payloads(vs) + tail,
        tail.len() < 8,
        run(kernel, drain(efd), trace) is Some,
    ensures
        run(kernel, drain(efd), trace) == Some(
            (
                drained(counter(vs), tail.len() > 0 || !kernel.peer_open(efd.read_fd)),
                kernel.with_inbox(efd.read_fd, seq![]),
            ),
        ),
{
    lemma_drain(kernel, Draining { fd: efd.read_fd, total: 0 }, vs, tail, trace);
}

proof fn lemma_drain_ends(kernel: Kernel, machine: Draining, vs: Seq<u64>, tail: Seq<u8>) -> (trace:
    Seq<(Reply, Kernel)>)
    requires
        kernel.open(machine.fd),
        kernel.socket(machine.fd).inbox == payloads(vs) + tail,
        tail.len() < 8,
        kernel.nonblocking(machine.fd) || !kernel.peer_open(machine.fd) || tail.len() > 0 || (
        machine.total + sum(vs)) % 0x1_0000_0000_0000_0000 != 0,
    ensures
        run(kernel, Progress::Call(next_read(machine.fd, machine.total), machine), trace) is Some,
    decreases vs.len(),
{
    let fd = machine.fd;
    let call = next_read(fd, machine.total);
    let inbox = kernel.socket(fd).inbox;
    if vs.len() == 0 {
        assert(inbox =~= tail);
        let n = tail.len() as int;
        let byte = |i: int|
            if i < n {
                tail[i]
            } else {
                0u8
            };
        let payload: [u8; 8] = [
            byte(0),
            byte(1),
            byte(2),
            byte(3),
            byte(4),
            byte(5),
            byte(6),
            byte(7),
        ];
        assert(payload@.take(n) =~= tail.take(n));
        let reply = Reply {
            rc: if n == 0 && kernel.peer_open(fd) {
                -1i64
            } else {
                n as i64
            },
            errno: EAGAIN,
            pair: (0, 0),
            payload,
        };
        let post = if n == 0 {
            kernel
        } else {
            kernel.with_inbox(fd, tail.skip(n))
        };
        let trace = seq![(reply, post)];
        assert(kernel.answers(call, reply, post));
        assert(trace.drop_first() =~= seq![]);
        reveal_with_fuel(run, 3);
        trace
    } else {
        let v = vs[0];
        let rest = vs.drop_first();
        lemma_payloads_front(vs);
        law_payload_round_trip(v);
        let p = payload(v);
        let bytes: [u8; 8] = [p[0], p[1], p[2], p[3], p[4], p[5], p[6], p[7]];
        assert(bytes@ =~= p);
        assert(inbox.take(8) =~= p);
        assert(inbox.skip(8) =~= payloads(rest) + tail);
        assert(bytes@.take(8) =~= bytes@);
        let reply = Reply { rc: 8, errno: 0, pair: (0, 0), payload: bytes };
        let post = kernel.with_inbox(fd, payloads(rest) + tail);
        assert(kernel.answers(call, reply, post));
        lemma_inbox_keeps_peer(kernel, fd, payloads(rest) + tail);
        let total = ((machine.total + v) % 0x1_0000_0000_0000_0000) as u64;
        let after = lemma_drain_ends(post, Draining { fd, total }, rest, tail);
        let trace = seq![(reply, post)] + after;
        assert(trace.drop_first() =~= after);
        trace
    }
}

proof fn lemma_split(bytes: Seq<u8>) -> (parts: (Seq<u64>, Seq<u8>))
    ensures
        bytes == payloads(parts.0) + parts.1,
        parts.1.len() < 8,
    decreases bytes.len(),
{
    if bytes.len() < 8 {
        assert(bytes =~= payloads(Seq::<u64>::empty()) + bytes);
        (seq![], bytes)
    } else {
        let first = bytes.take(8);
        let (rest, tail) = lemma_split(bytes.skip(8));
        law_eight_bytes_are_payload(first);
        let vs = seq![number(first) as u64] + rest;
        lemma_payloads_front(vs);
        assert(vs.drop_first() =~= rest);
        assert(payloads(vs) == first + payloads(rest));
        assert(bytes =~= first + bytes.skip(8));
        assert(first + (payloads(rest) + tail) =~= payloads(vs) + tail);
        (vs, tail)
    }
}

/// Whatever waits to be read is a number of increments and then, perhaps, the part of a
/// payload.
pub proof fn law_bytes_are_increments(bytes: Seq<u8>)
    ensures
        exists|vs: Seq<u64>, tail: Seq<u8>|
            tail.len() < 8 && bytes == #[trigger] (payloads(vs) + tail),
{
    let (vs, tail) = lemma_split(bytes);
    assert(bytes == payloads(vs) + tail);
}

/// Reading ends where calls on the read end do not wait. Where they do, it ends if there is a
/// sum to return, if the part of a payload waits behind the increments, or if the other end
/// is closed; otherwise it waits for the next increment, as a counter at 0 makes it.
pub proof fn law_read_ends(kernel: Kernel, efd: EventFd, vs: Seq<u64>, tail: Seq<u8>)
    requires
        kernel.open(efd.read_fd),
        kernel.waiting(efd) == payloads(vs) + tail,
        tail.len() < 8,
        kernel.nonblocking(efd.read_fd) || counter(vs) != 0 || tail.len() > 0 || !kernel.peer_open(
            efd.read_fd,
        ),
    ensures
        exists|trace: Seq<(Reply, Kernel)>| run(kernel, drain(efd), trace) is Some,
{
    let trace = lemma_drain_ends(kernel, Draining { fd: efd.read_fd, total: 0 }, vs, tail);
    assert(run(kernel, drain(efd), trace) is Some);
}

/// Reading waits where calls on the read end wait, the other end is open, and what waits is
/// whole increments that come to 0: no run of it ends.
pub proof fn law_read_waits_at_zero(
    kernel: Kernel,
    efd: EventFd,
    vs: Seq<u64>,
    trace: Seq<(Reply, Kernel)>,
)
    requires
        kernel.open(efd.read_fd),
        kernel.waiting(efd) == payloads(vs),
        counter(vs) == 0,
        !kernel.nonblocking(efd.read_fd),
        kernel.peer_open(efd.read_fd),
    ensures
        run(kernel, drain(efd), trace) is None,
{
    lemma_drain_waits(kernel, Draining { fd: efd.read_fd, total: 0 }, vs, trace);
}

proof fn lemma_drain_waits(
    kernel: Kernel,
    machine: Draining,
    vs: Seq<u64>,
    trace: Seq<(Reply, Kernel)>,
)
    requires
        kernel.open(machine.fd),
        kernel.socket(machine.fd).inbox == payloads(vs),
        (machine.total + sum(vs)) % 0x1_0000_0000_0000_0000 == 0,
        !kernel.nonblocking(machine.fd),
        kernel.peer_open(machine.fd),
    ensures
        run(kernel, Progress::Call(next_read(machine.fd, machine.total), machine), trace) is None,
    decreases vs.len(),
{
    let fd = machine.fd;
    let progress = Progress::Call(next_read(fd, machine.total), machine);
    if vs.len() > 0 && run(kernel, progress, trace) is Some {
        let (reply, post) = trace[0];
        let inbox = kernel.socket(fd).inbox;
        let v = vs[0];
        let rest = vs.drop_first();
        assert(kernel.answers_read(fd, reply, post));
        lemma_payloads_front(vs);
        law_payload_round_trip(v);
        assert(inbox.take(8) =~= payload(v));
        assert(inbox.skip(8) =~= payloads(rest));
        assert(reply.payload@.take(8) =~= reply.payload@);
        let total = ((machine.total + v) % 0x1_0000_0000_0000_0000) as u64;
        lemma_inbox_keeps_peer(kernel, fd, inbox.skip(8));
        lemma_drain_waits(post, Draining { fd, total }, rest, trace.drop_first());
    }
}

/// Adding to the counter sends the whole increment or reports a failure: on success the
/// increment waits at the read end behind what waited there, and the read end is readable;
/// where the system refuses the call nothing changes; where it takes a part of the payload
/// the addition fails as a short write.
pub proof fn law_write_adds(
    kernel: Kernel,
    efd: EventFd,
    v: u64,
    progress: Progress<Writing, Result<(), Error>>,
    trace: Seq<(Reply, Kernel)>,
)
    requires
        kernel.connects(efd),
        is_addition(progress, efd, v),
        run(kernel, progress, trace) is Some,
    ensures
        ({
            let (result, post) = run(kernel, progress, trace)->0;
            let rc = trace[0].0.rc;
            &&& result is Ok <==> rc == 8
            &&& result == Err::<(), Error>(Error::ShortWrite) <==> 0 <= rc < 8
            &&& result is Ok ==> {
                &&& post == kernel.added(efd, seq![v])
                &&& post.connects(efd)
                &&& post.waiting(efd) == kernel.waiting(efd) + payload(v)
                &&& post.waiting(efd).len() > 0
            }
            &&& result == Err::<(), Error>(Error::ShortWrite) ==> post == kernel.sent(
                efd.write_fd,
                payload(v).take(rc as int),
            )
            &&& rc < 0 ==> result == Err::<(), Error>(Error::Os(trace[0].0.errno)) && post == kernel
        }),
{
    law_payload_round_trip(v);
    let (reply, post) = trace[0];
    assert(run(post, Writing.next(reply), trace.drop_first()) is Some);
    assert(payload(v).take(8) =~= payload(v));
    assert(seq![v].drop_last() =~= Seq::<u64>::empty());
    reveal_with_fuel(Kernel::added, 2);
}

proof fn lemma_added(kernel: Kernel, writer: EventFd, reader: EventFd, vs: Seq<u64>)
    requires
        kernel.share(writer, reader),
    ensures
        kernel.added(writer, vs).share(writer, reader),
        kernel.added(writer, vs).waiting(reader) == kernel.waiting(reader) + payloads(vs),
    decreases vs.len(),
{
    if vs.len() == 0 {
        assert(kernel.waiting(reader) + payloads(vs) =~= kernel.waiting(reader));
    } else {
        lemma_added(kernel, writer, reader, vs.drop_last());
        assert(kernel.added(writer, vs).waiting(reader) =~= kernel.waiting(reader) + payloads(vs));
    }
}

/// What is added through one event descriptor is read, as a sum, through any event
/// descriptor with the same counter, and is read once: the counter is at 0 after that.
pub proof fn law_read_gives_back_writes(
    kernel: Kernel,
    writer: EventFd,
    reader: EventFd,
    vs: Seq<u64>,
    trace: Seq<(Reply, Kernel)>,
)
    requires
        kernel.share(writer, reader),
        kernel.waiting(reader).len() == 0,
        run(kernel.added(writer, vs), drain(reader), trace) is Some,
    ensures
        ({
            let (result, post) = run(kernel.added(writer, vs), drain(reader), trace)->0;
            &&& result == drained(counter(vs), false)
            &&& post.share(writer, reader)
            &&& post.waiting(reader).len() == 0
        }),
{
    let full = kernel.added(writer, vs);
    lemma_added(kernel, writer, reader, vs);
    assert(kernel.waiting(reader) + payloads(vs) =~= payloads(vs) + Seq::<u8>::empty());
    law_read_returns_sum(full, reader, vs, seq![], trace);
    assert(full.fds.contains_key(reader.write_fd));
}

/// Where nothing waits, reading changes nothing. It fails, unless the other end is closed:
/// then it returns 0.
pub proof fn law_read_of_nothing(kernel: Kernel, efd: EventFd, trace: Seq<(Reply, Kernel)>)
    requires
        kernel.open(efd.read_fd),
        kernel.waiting(efd).len() == 0,
        run(kernel, drain(efd), trace) is Some,
    ensures
        run(kernel, drain(efd), trace) == Some(
            (
                if kernel.peer_open(efd.read_fd) {
                    Err::<u64, Error>(Error::Os(EAGAIN))
                } else {
                    Ok(0)
                },
                kernel,
            ),
        ),
{
    assert(kernel.waiting(efd) =~= payloads(Seq::<u64>::empty()) + Seq::<u8>::empty());
    law_read_returns_sum(kernel, efd, seq![], seq![], trace);
    assert(kernel.with_inbox(efd.read_fd, seq![]).files =~= kernel.files);
}

/// A clone has the same counter as what it was cloned from, and descriptors of its own.
/// Cloning fails exactly if an end cannot be duplicated, with the error of that, and then no
/// descriptor is left behind.
pub proof fn law_clone_shares_counter(kernel: Kernel, efd: EventFd, trace: Seq<(Reply, Kernel)>)
    requires
        kernel.connects(efd),
        run(kernel, duplication(efd), trace) is Some,
    ensures
        ({
            let (result, post) = run(kernel, duplication(efd), trace)->0;
            match result {
                Ok(clone) => {
                    &&& trace[0].0.rc >= 0
                    &&& trace[1].0.rc >= 0
                    &&& post.share(efd, clone)
                    &&& clone.read_fd != clone.write_fd
                    &&& !kernel.fds.contains_key(clone.read_fd)
                    &&& !kernel.fds.contains_key(clone.write_fd)
                    &&& post.fds.remove(clone.read_fd).remove(clone.write_fd) == kernel.fds
                    &&& post.files == kernel.files
                },
                Err(error) => {
                    &&& post == kernel
                    &&& trace[0].0.rc < 0 || trace[1].0.rc < 0
                    &&& error == Error::Os(
                        if trace[0].0.rc < 0 {
                            trace[0].0.errno
                        } else {
                            trace[1].0.errno
                        },
                    )
                },
            }
        }),
{
    reveal_with_fuel(run, 4);
    let post = (run(kernel, duplication(efd), trace)->0).1;
    match (run(kernel, duplication(efd), trace)->0).0 {
        Ok(clone) => {
            assert(post.fds.remove(clone.read_fd).remove(clone.write_fd) =~= kernel.fds);
        },
        Err(_) => {
            assert(post.fds =~= kernel.fds);
        },
    }
}

/// Closing an event descriptor closes both ends, each once, and nothing else.
pub proof fn law_close_closes_both(kernel: Kernel, efd: EventFd, trace: Seq<(Reply, Kernel)>)
    requires
        run(kernel, closing(efd), trace) is Some,
    ensures
        (run(kernel, closing(efd), trace)->0).1 == kernel.closed(efd.read_fd).closed(efd.write_fd),
        trace.len() == if efd.read_fd == efd.write_fd {
            1int
        } else {
            2
        },
{
    reveal_with_fuel(run, 4);
    let post = (run(kernel, closing(efd), trace)->0).1;
    assert(post.fds =~= kernel.fds.remove(efd.read_fd).remove(efd.write_fd));
}

/// Giving up the read end hands out the descriptor that was polled before, still open, and
/// closes the write end, unless that is the same descriptor.
pub proof fn law_release_keeps_read_end(kernel: Kernel, efd: EventFd, trace: Seq<(Reply, Kernel)>)
    requires
        kernel.open(efd.read_fd),
        run(kernel, release(efd), trace) is Some,
    ensures
        ({
            let (fd, post) = run(kernel, release(efd), trace)->0;
            &&& fd == efd.read_fd
            &&& post.open(fd)
            &&& post == if efd.write_fd == efd.read_fd {
                kernel
            } else {
                kernel.closed(efd.write_fd)
            }
        }),
{
    reveal_with_fuel(run, 3);
}

/// Whether `efd` holds the only descriptor of its write end.
pub open spec fn sole_writer(kernel: Kernel, efd: EventFd) -> bool {
    forall|other: i32| #[trigger]
        kernel.fds.contains_key(other) && kernel.fds[other].file == kernel.fds[efd.write_fd].file
            ==> other == efd.write_fd
}

/// The increments that wait survive the release of the read end. Where no clone holds the
/// write end, it is closed for good: the first read of what was released returns the sum of
/// the increments, and any later one returns 0.
pub proof fn law_released_end_runs_out(
    kernel: Kernel,
    efd: EventFd,
    vs: Seq<u64>,
    tail: Seq<u8>,
    trace: Seq<(Reply, Kernel)>,
    reader: EventFd,
    first: Seq<(Reply, Kernel)>,
    again: Seq<(Reply, Kernel)>,
)
    requires
        kernel.connects(efd),
        efd.read_fd != efd.write_fd,
        sole_writer(kernel, efd),
        kernel.waiting(efd) == payloads(vs) + tail,
        tail.len() < 8,
        run(kernel, release(efd), trace) is Some,
        reader.read_fd == (run(kernel, release(efd), trace)->0).0,
    ensures
        ({
            let post = (run(kernel, release(efd), trace)->0).1;
            let empty = post.with_inbox(reader.read_fd, seq![]);
            &&& post.waiting(reader) == kernel.waiting(efd)
            &&& !post.peer_open(reader.read_fd)
            &&& run(post, drain(reader), first) is Some ==> run(post, drain(reader), first) == Some(
                (Ok::<u64, Error>(counter(vs)), empty),
            )
            &&& run(empty, drain(reader), again) is Some ==> run(empty, drain(reader), again)
                == Some((Ok::<u64, Error>(0), empty))
        }),
{
    law_release_keeps_read_end(kernel, efd, trace);
    let post = (run(kernel, release(efd), trace)->0).1;
    let empty = post.with_inbox(reader.read_fd, seq![]);
    assert(!post.peer_open(reader.read_fd));
    assert(!empty.peer_open(reader.read_fd));
    if run(post, drain(reader), first) is Some {
        law_read_returns_sum(post, reader, vs, tail, first);
    }
    if run(empty, drain(reader), again) is Some {
        law_read_of_nothing(empty, reader, again);
    }
}

/// An event descriptor that is made of one end of a pair reads from it, and sends into the
/// same end; of the other descriptors none changes.
pub proof fn law_wrap_uses_one_end(kernel: Kernel, fd: i32, trace: Seq<(Reply, Kernel)>)
    requires
        kernel.open(fd),
        run(kernel, wrapped(fd), trace) is Some,
    ensures
        ({
            let (efd, post) = run(kernel, wrapped(fd), trace)->0;
            &&& efd.read_fd == fd
            &&& post.open(efd.write_fd)
            &&& post.fds[efd.write_fd].file == kernel.fds[fd].file
            &&& post.files == kernel.files
            &&& if efd.write_fd == fd {
                post == kernel
            } else {
                !kernel.fds.contains_key(efd.write_fd) && post.fds.remove(efd.write_fd)
                    == kernel.fds
            }
        }),
{
    reveal_with_fuel(run, 3);
    let (efd, post) = run(kernel, wrapped(fd), trace)->0;
    if efd.write_fd != fd {
        assert(post.fds.remove(efd.write_fd) =~= kernel.fds);
    }
}

/// Whether the ends of `efd` are two open descriptors of two sockets.
spec fn ends_apart(kernel: Kernel, efd: EventFd) -> bool {
    &&& efd.read_fd != efd.write_fd
    &&& kernel.open(efd.read_fd)
    &&& kernel.open(efd.write_fd)
    &&& kernel.fds[efd.read_fd].file != kernel.fds[efd.write_fd].file
}

/// The descriptors but for the ends of `efd`.
spec fn others(kernel: Kernel, efd: EventFd) -> Map<i32, crate::model::Descriptor> {
    kernel.fds.remove(efd.read_fd).remove(efd.write_fd)
}

/// Whether the reply with index `i` reports a failure with the error number `errno`.
pub open spec fn failed_at(trace: Seq<(Reply, Kernel)>, i: int, errno: i32) -> bool {
    0 <= i < trace.len() && trace[i].0.rc < 0 && trace[i].0.errno == errno
}

/// Whether the reply with index `i` is the first to report a failure, with the error number
/// `errno`.
pub open spec fn first_failed_at(trace: Seq<(Reply, Kernel)>, i: int, errno: i32) -> bool {
    &&& failed_at(trace, i, errno)
    &&& forall|j: int| 0 <= j < i ==> (#[trigger] trace[j]).0.rc >= 0
}

/// Whether no reply reports a failure.
pub open spec fn none_failed(trace: Seq<(Reply, Kernel)>) -> bool {
    forall|i: int| 0 <= i < trace.len() ==> (#[trigger] trace[i]).0.rc >= 0
}

proof fn lemma_abandon(
    kernel: Kernel,
    efd: EventFd,
    errno: i32,
    trace: Seq<(Reply, Kernel)>,
)
    requires
        efd.read_fd != efd.write_fd,
        run(kernel, Creating::abandon_spec(efd, errno), trace) is Some,
    ensures
        (run(kernel, Creating::abandon_spec(efd, errno), trace)->0).0 == Err::<EventFd, Error>(
            Error::Os(errno),
        ),
        (run(kernel, Creating::abandon_spec(efd, errno), trace)->0).1.fds == others(kernel, efd),
{
    reveal_with_fuel(run, 4);
}

proof fn lemma_configure(
    kernel: Kernel,
    flag: i32,
    efd: EventFd,
    index: int,
    trace: Seq<(Reply, Kernel)>,
)
    requires
        ends_apart(kernel, efd),
        0 <= index <= adjustments(flag, efd).len(),
        run(kernel, Creating::configure_spec(flag, efd, index), trace) is Some,
    ensures
        ({
            let (result, post) = run(
                kernel,
                Creating::configure_spec(flag, efd, index),
                trace,
            )->0;
            match result {
                Ok(e) => {
                    &&& e == efd
                    &&& post == kernel.adjusted_from(adjustments(flag, efd), index)
                    &&& none_failed(trace)
                },
                Err(error) => {
                    &&& post.fds == others(kernel, efd)
                    &&& exists|i: int, errno: i32|
                        first_failed_at(trace, i, errno) && error == Error::Os(errno)
                },
            }
        }),
    decreases adjustments(flag, efd).len() - index,
{
    let todo = adjustments(flag, efd);
    if index < todo.len() {
        let now = todo[index];
        let following = (index + 1) as usize;
        let querying = Creating::Querying { flag, efd, now, following };
        let (first, k1) = trace[0];
        let after_query = trace.drop_first();
        assert(k1 == kernel);
        assert(run(k1, querying.next(first), after_query) is Some);
        if first.rc < 0 {
            lemma_abandon(k1, efd, first.errno, after_query);
            assert(first_failed_at(trace, 0, first.errno));
        } else {
            let applying = Creating::Applying { flag, efd, now, following };
            let (second, k2) = after_query[0];
            let after_apply = after_query.drop_first();
            assert(trace[1] == after_query[0]);
            assert(run(k2, applying.next(second), after_apply) is Some);
            if second.rc < 0 {
                lemma_abandon(k2, efd, second.errno, after_apply);
                assert(first_failed_at(trace, 1, second.errno));
            } else {
                assert(k2 == kernel.adjusted(now));
                lemma_configure(k2, flag, efd, index + 1, after_apply);
                assert(others(k2, efd) =~= others(kernel, efd));
                let result = (run(
                    kernel,
                    Creating::configure_spec(flag, efd, index),
                    trace,
                )->0).0;
                if result is Err {
                    let (i, errno) = choose|i: int, errno: i32|
                        first_failed_at(after_apply, i, errno) && result->Err_0 == Error::Os(errno);
                    assert(first_failed_at(trace, i + 2, errno)) by {
                        assert(after_apply[i] == trace[i + 2]);
                        assert forall|j: int| 0 <= j < i + 2 implies (#[trigger] trace[j]).0.rc
                            >= 0 by {
                            if j >= 2 {
                                assert(trace[j] == after_apply[j - 2]);
                            }
                        }
                    }
                } else {
                    assert forall|i: int| 0 <= i < trace.len() implies (#[trigger] trace[i]).0.rc
                        >= 0 by {
                        if i >= 2 {
                            assert(trace[i] == after_apply[i - 2]);
                        }
                    }
                }
            }
        }
    }
}

proof fn lemma_flag_bits(status: i32)
    by (bit_vector)
    ensures
        (status | O_NONBLOCK) & O_NONBLOCK != 0,
        (0i32 | FD_CLOEXEC) & FD_CLOEXEC != 0,
        0i32 & FD_CLOEXEC == 0,
{
}

/// Creating an event descriptor gives a new pair whose ends reach each other, with a counter
/// at 0. Both ends do not wait exactly if [`EFD_NONBLOCK`] is asked for, and are closed by
/// `exec` exactly if [`EFD_CLOEXEC`] is; no other flag has an effect. It fails exactly if a
/// call fails, with the error of the first that does, and then no descriptor is left behind. What was
/// there before does not change.
pub proof fn law_new_honors_flags(kernel: Kernel, flag: i32, trace: Seq<(Reply, Kernel)>)
    requires
        run(kernel, creation(flag), trace) is Some,
    ensures
        ({
            let (result, post) = run(kernel, creation(flag), trace)->0;
            match result {
                Ok(efd) => {
                    &&& trace[0].0.rc == 0
                    &&& none_failed(trace)
                    &&& efd.read_fd == trace[0].0.pair.0
                    &&& efd.write_fd == trace[0].0.pair.1
                    &&& !kernel.fds.contains_key(efd.read_fd)
                    &&& !kernel.fds.contains_key(efd.write_fd)
                    &&& efd.read_fd != efd.write_fd
                    &&& post.fds.remove(efd.read_fd).remove(efd.write_fd) == kernel.fds
                    &&& post.connects(efd)
                    &&& post.connects(EventFd { read_fd: efd.write_fd, write_fd: efd.read_fd })
                    &&& post.waiting(efd).len() == 0
                    &&& post.nonblocking(efd.read_fd) <==> flag & EFD_NONBLOCK != 0
                    &&& post.nonblocking(efd.write_fd) <==> flag & EFD_NONBLOCK != 0
                    &&& post.close_on_exec(efd.read_fd) <==> flag & EFD_CLOEXEC != 0
                    &&& post.close_on_exec(efd.write_fd) <==> flag & EFD_CLOEXEC != 0
                    &&& forall|f: nat| #[trigger]
                        kernel.files.contains_key(f) ==> post.files.contains_key(f)
                            && post.files[f] == kernel.files[f]
                },
                Err(error) => {
                    &&& post.fds == kernel.fds
                    &&& if trace[0].0.rc != 0 {
                        error == Error::Os(trace[0].0.errno)
                    } else {
                        exists|i: int, errno: i32|
                            first_failed_at(trace, i, errno) && error == Error::Os(errno)
                    }
                },
            }
        }),
{
    let (reply, k) = trace[0];
    let rest = trace.drop_first();
    let pairing = Creating::Pairing { flag };
    assert(run(k, pairing.next(reply), rest) is Some);
    if reply.rc == 0 {
        let efd = EventFd { read_fd: reply.pair.0, write_fd: reply.pair.1 };
        lemma_configure(k, flag, efd, 0, rest);
        assert(others(k, efd) =~= kernel.fds);
        let (result, post) = run(kernel, creation(flag), trace)->0;
        if result is Err {
            let (i, errno) = choose|i: int, errno: i32|
                first_failed_at(rest, i, errno) && result->Err_0 == Error::Os(errno);
            assert(first_failed_at(trace, i + 1, errno)) by {
                assert(rest[i] == trace[i + 1]);
                assert forall|j: int| 0 <= j < i + 1 implies (#[trigger] trace[j]).0.rc >= 0 by {
                    if j >= 1 {
                        assert(trace[j] == rest[j - 1]);
                    }
                }
            }
        } else {
            reveal_with_fuel(Kernel::adjusted_from, 5);
            lemma_flag_bits(k.socket(efd.read_fd).status);
            lemma_flag_bits(k.socket(efd.write_fd).status);
            assert(post == k.adjusted_from(adjustments(flag, efd), 0));
            assert(others(post, efd) =~= kernel.fds);
            assert forall|i: int| 0 <= i < trace.len() implies (#[trigger] trace[i]).0.rc >= 0 by {
                if i >= 1 {
                    assert(trace[i] == rest[i - 1]);
                }
            }
        }
    }
}

} // verus!
