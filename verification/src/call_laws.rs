//! Which system calls the operations make, one after the other, and what they make of the
//! replies. These laws hold for any replies; they do not rest on a model of the system.

use crate::epoll::{Epoll, Opening};
use crate::eventfd::{
    closing, creation, drain, duplication, is_addition, release, wrapped, Creating, Draining,
    EventFd, Writing, EFD_CLOEXEC, EFD_NONBLOCK, EFD_SEMAPHORE,
};
use crate::payload::{law_number_is_weighted_sum, law_payload_is_little_endian};
use crate::sys::{Closing, Error, Machine, Progress, Reply, SysCall};
use vstd::prelude::*;

verus! {

/// Where an operation stands once it was given the first `n` replies.
pub open spec fn after<M: Machine>(
    start: Progress<M, M::Out>,
    replies: Seq<Reply>,
    n: nat,
) -> Progress<M, M::Out>
    decreases n,
{
    if n == 0 {
        start
    } else {
        match after(start, replies, (n - 1) as nat) {
            Progress::Call(_, machine) => machine.next(replies[n - 1]),
            Progress::Done(out) => Progress::Done(out),
        }
    }
}

/// Whether the operation asks for `call` next.
pub open spec fn asks<M: Machine>(progress: Progress<M, M::Out>, call: SysCall) -> bool {
    progress matches Progress::Call(c, _) && c == call
}

/// Whether the operation is over, with this result.
pub open spec fn ends<M: Machine>(progress: Progress<M, M::Out>, out: M::Out) -> bool {
    progress == Progress::<M, M::Out>::Done(out)
}

/// Creating a kqueue handle asks for a kqueue and holds the very descriptor that comes back;
/// where the call fails, so does the creation, with its error.
pub proof fn law_epoll_new_calls(reply: Reply)
    ensures
        ({
            let start = Progress::<Opening, Result<Epoll, Error>>::Call(SysCall::Kqueue, Opening);
            let end = after(start, seq![reply], 1);
            &&& 0 <= reply.rc <= i32::MAX ==> (end matches Progress::Done(Ok(epoll)) && epoll.kq
                == reply.rc)
            &&& reply.rc < 0 ==> ends(end, Err(Error::Os(reply.errno)))
        }),
{
    reveal_with_fuel(after, 2);
}

/// Closing goes on with the descriptor that is left, if there is one, and then ends, whatever
/// the replies are.
pub proof fn law_closing_calls(rest: Option<i32>, a: Reply, b: Reply)
    ensures
        ({
            let machine = Closing { rest };
            match rest {
                Some(fd) => machine.next(a) matches Progress::Call(call, last) && call
                    == (SysCall::Close { fd }) && ends(last.next(b), ()),
                None => ends(machine.next(a), ()),
            }
        }),
{
}

/// Closing an event descriptor closes the read end, then the write end unless it is the same
/// descriptor, and that is all.
pub proof fn law_close_calls(efd: EventFd, replies: Seq<Reply>)
    ensures
        asks(closing(efd), SysCall::Close { fd: efd.read_fd }),
        efd.read_fd != efd.write_fd ==> {
            &&& asks(after(closing(efd), replies, 1), SysCall::Close { fd: efd.write_fd })
            &&& ends(after(closing(efd), replies, 2), ())
        },
        efd.read_fd == efd.write_fd ==> ends(after(closing(efd), replies, 1), ()),
{
    reveal_with_fuel(after, 3);
}

/// Giving up the read end closes the write end, unless it is the same descriptor, and gives
/// the read end.
pub proof fn law_release_calls(efd: EventFd, replies: Seq<Reply>)
    ensures
        efd.read_fd != efd.write_fd ==> {
            &&& asks(release(efd), SysCall::Close { fd: efd.write_fd })
            &&& ends(after(release(efd), replies, 1), efd.read_fd)
        },
        efd.read_fd == efd.write_fd ==> ends(release(efd), efd.read_fd),
{
    reveal_with_fuel(after, 2);
}

/// An event descriptor that is made of one end reads from it, and sends into its duplicate,
/// or into the same end if there is none.
pub proof fn law_wrap_calls(fd: i32, reply: Reply)
    ensures
        asks(wrapped(fd), SysCall::Dup { fd }),
        ({
            let end = after(wrapped(fd), seq![reply], 1);
            &&& end matches Progress::Done(efd) && efd.read_fd == fd && (reply.rc < 0
                ==> efd.write_fd == fd) && (0 <= reply.rc <= i32::MAX ==> efd.write_fd == reply.rc)
        }),
{
    reveal_with_fuel(after, 2);
}

/// Cloning duplicates the read end and then the write end, and the clone is made of the two
/// duplicates. Where the first fails, so does the cloning; where the second does, the first
/// duplicate is closed again before the cloning fails. The error is that of the call that
/// failed, not that of the close.
pub proof fn law_clone_calls(efd: EventFd, replies: Seq<Reply>)
    requires
        replies.len() == 3,
        forall|i: int| 0 <= i < 3 ==> (#[trigger] replies[i]).rc <= i32::MAX,
    ensures
        ({
            let start = duplication(efd);
            &&& asks(start, SysCall::Dup { fd: efd.read_fd })
            &&& replies[0].rc < 0 ==> ends(
                after(start, replies, 1),
                Err(Error::Os(replies[0].errno)),
            )
            &&& replies[0].rc >= 0 ==> {
                &&& asks(after(start, replies, 1), SysCall::Dup { fd: efd.write_fd })
                &&& replies[1].rc >= 0 ==> (after(start, replies, 2) matches Progress::Done(
                    Ok(clone),
                ) && clone.read_fd == replies[0].rc && clone.write_fd == replies[1].rc)
                &&& replies[1].rc < 0 ==> {
                    &&& after(start, replies, 2) matches Progress::Call(SysCall::Close { fd }, _)
                        && fd == replies[0].rc
                    &&& ends(after(start, replies, 3), Err(Error::Os(replies[1].errno)))
                }
            }
        }),
{
    reveal_with_fuel(after, 4);
}

/// Adding `v` writes eight bytes into the write end, those of `v` in little-endian order. It
/// succeeds exactly if all of them were taken; it fails with the error of the call where that
/// failed, and as a short write otherwise.
pub proof fn law_write_calls(
    progress: Progress<Writing, Result<(), Error>>,
    efd: EventFd,
    v: u64,
    reply: Reply,
)
    requires
        is_addition(progress, efd, v),
    ensures
        progress matches Progress::Call(SysCall::Write { fd, bytes }, _) && fd == efd.write_fd && {
            &&& bytes@.len() == 8
            &&& bytes@[0] == v & 0xff
            &&& bytes@[1] == (v >> 8) & 0xff
            &&& bytes@[2] == (v >> 16) & 0xff
            &&& bytes@[3] == (v >> 24) & 0xff
            &&& bytes@[4] == (v >> 32) & 0xff
            &&& bytes@[5] == (v >> 40) & 0xff
            &&& bytes@[6] == (v >> 48) & 0xff
            &&& bytes@[7] == (v >> 56) & 0xff
        },
        ({
            let end = after(progress, seq![reply], 1);
            &&& reply.rc == 8 ==> (end matches Progress::Done(result) && result is Ok)
            &&& reply.rc < 0 ==> ends(end, Err(Error::Os(reply.errno)))
            &&& reply.rc >= 0 && reply.rc != 8 ==> ends(end, Err(Error::ShortWrite))
        }),
{
    law_payload_is_little_endian(v);
    reveal_with_fuel(after, 2);
}

/// Draining starts with a read of the read end, at a sum of 0.
pub proof fn law_drain_starts(efd: EventFd)
    ensures
        drain(efd) matches Progress::Call(call, machine) && call == (SysCall::Read {
            fd: efd.read_fd,
        }) && machine.fd == efd.read_fd && machine.total == 0,
{
}

/// What a drain makes of one reply. Eight bytes are an increment in little-endian order: it is
/// added to the sum, modulo 2 to the 64, and the same descriptor is read again, waiting only
/// if the sum is 0. A failure at a sum of 0 is the result; anything else ends the drain with
/// the sum.
pub proof fn law_drain_step(machine: Draining, reply: Reply)
    ensures
        reply.rc == 8 ==> (machine.next(reply) matches Progress::Call(call, next) && {
            let p = reply.payload@;
            let v = p[0] + p[1] * 0x100 + p[2] * 0x1_0000 + p[3] * 0x100_0000 + p[4] * 0x1_0000_0000
                + p[5] * 0x100_0000_0000 + p[6] * 0x1_0000_0000_0000 + p[7] * 0x100_0000_0000_0000;
            &&& next.fd == machine.fd
            &&& next.total == (machine.total + v) % 0x1_0000_0000_0000_0000
            &&& next.total == 0 ==> call == (SysCall::Read { fd: machine.fd })
            &&& next.total != 0 ==> call == (SysCall::ReadReady { fd: machine.fd })
        }),
        reply.rc < 0 && machine.total == 0 ==> ends(
            machine.next(reply),
            Err(Error::Os(reply.errno)),
        ),
        reply.rc != 8 && (reply.rc >= 0 || machine.total != 0) ==> ends(
            machine.next(reply),
            Ok(machine.total),
        ),
{
    law_number_is_weighted_sum(reply.payload@);
}

/// The flags that creating an event descriptor takes are bits 0, 1 and 2.
pub proof fn law_new_flag_numbers()
    ensures
        EFD_NONBLOCK == 1,
        EFD_CLOEXEC == 2,
        EFD_SEMAPHORE == 4,
{
}

/// Creating an event descriptor asks for a socket pair first, and fails with the error of that
/// call unless it returns 0. Then, for each flag that is asked for, the flags of the read end
/// are fetched and set again with one bit more, and after that those of the write end: first
/// status flags with bit 2, then descriptor flags with bit 0. The event descriptor is made of
/// the pair. No other flag has an effect, and not all of the replies need be asked for.
pub proof fn law_new_calls(flag: i32, replies: Seq<Reply>)
    requires
        replies.len() == 9,
        forall|i: int| 0 < i < 9 ==> 0 <= (#[trigger] replies[i]).rc <= i32::MAX,
    ensures
        ({
            let start = creation(flag);
            let (r, w) = replies[0].pair;
            let nonblock = flag & 1 != 0;
            let cloexec = flag & 2 != 0;
            // How many replies come before the descriptor flags.
            let k: nat = if nonblock {
                5
            } else {
                1
            };
            let done: nat = if cloexec {
                k + 4
            } else {
                k
            };
            &&& asks(start, SysCall::Socketpair)
            &&& replies[0].rc != 0 ==> ends(
                after(start, replies, 1),
                Err(Error::Os(replies[0].errno)),
            )
            &&& replies[0].rc == 0 ==> {
                &&& nonblock ==> {
                    &&& asks(after(start, replies, 1), SysCall::GetStatusFlags { fd: r })
                    &&& asks(
                        after(start, replies, 2),
                        SysCall::SetStatusFlags { fd: r, flags: replies[1].rc as i32 | 4 },
                    )
                    &&& asks(after(start, replies, 3), SysCall::GetStatusFlags { fd: w })
                    &&& asks(
                        after(start, replies, 4),
                        SysCall::SetStatusFlags { fd: w, flags: replies[3].rc as i32 | 4 },
                    )
                }
                &&& cloexec ==> {
                    &&& asks(after(start, replies, k), SysCall::GetDescriptorFlags { fd: r })
                    &&& asks(
                        after(start, replies, k + 1),
                        SysCall::SetDescriptorFlags {
                            fd: r,
                            flags: replies[k as int].rc as i32 | 1,
                        },
                    )
                    &&& asks(after(start, replies, k + 2), SysCall::GetDescriptorFlags { fd: w })
                    &&& asks(
                        after(start, replies, k + 3),
                        SysCall::SetDescriptorFlags {
                            fd: w,
                            flags: replies[k as int + 2].rc as i32 | 1,
                        },
                    )
                }
                &&& ends(
                    after(start, replies, done),
                    Ok(EventFd { read_fd: r, write_fd: w }),
                )
            }
        }),
{
    reveal_with_fuel(after, 10);
}

/// Whether the creation is at a flag of the pair that it was given.
spec fn at_flag(progress: Progress<Creating, Result<EventFd, Error>>, pair: (i32, i32)) -> bool {
    progress matches Progress::Call(_, machine) && match machine {
        Creating::Querying { efd, .. } => efd.read_fd == pair.0 && efd.write_fd == pair.1,
        Creating::Applying { efd, .. } => efd.read_fd == pair.0 && efd.write_fd == pair.1,
        _ => false,
    }
}

proof fn lemma_at_flag(flag: i32, replies: Seq<Reply>, n: nat)
    requires
        n >= 1,
        replies[0].rc == 0,
        forall|i: int| 0 < i < n ==> (#[trigger] replies[i]).rc >= 0,
        after(creation(flag), replies, n) is Call,
    ensures
        at_flag(after(creation(flag), replies, n), replies[0].pair),
    decreases n,
{
    reveal_with_fuel(after, 2);
    if n >= 2 {
        let before = after(creation(flag), replies, (n - 1) as nat);
        assert(before is Call);
        lemma_at_flag(flag, replies, (n - 1) as nat);
        assert(replies[n - 1].rc >= 0);
    }
}

/// Where a call for a flag fails, the creation of an event descriptor closes the read end and
/// the write end, each once, and then fails with the error of that call.
pub proof fn law_new_gives_up(flag: i32, replies: Seq<Reply>, n: nat)
    requires
        n >= 1,
        replies[0].rc == 0,
        forall|i: int| 0 < i < n ==> (#[trigger] replies[i]).rc >= 0,
        after(creation(flag), replies, n) is Call,
        replies[n as int].rc < 0,
    ensures
        ({
            let start = creation(flag);
            let (r, w) = replies[0].pair;
            &&& asks(after(start, replies, n + 1), SysCall::Close { fd: r })
            &&& r != w ==> {
                &&& asks(after(start, replies, n + 2), SysCall::Close { fd: w })
                &&& ends(after(start, replies, n + 3), Err(Error::Os(replies[n as int].errno)))
            }
            &&& r == w ==> ends(
                after(start, replies, n + 2),
                Err(Error::Os(replies[n as int].errno)),
            )
        }),
{
    lemma_at_flag(flag, replies, n);
    reveal_with_fuel(after, 4);
}

} // verus!
