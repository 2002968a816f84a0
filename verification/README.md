# macos_shims

Linux's `eventfd(2)` and `epoll(7)` for macOS, as far as vhost-user backends need them,
written in Rust and verified with Verus.

- `src/` decides which system calls an operation makes and what their replies mean. It makes
  none itself. Every function has a contract; `eventfd_laws`, `epoll_laws` and `poll_laws`
  prove what whole operations come to on a model of sockets, descriptors and kqueues.
- `app/` owns the descriptors and makes the calls. It holds the handles that programs use.
- `tests/` runs the library against small stand-ins for the system.

The model of the system is an assumption:

- A stream socket hands out bytes in the order in which they were sent, as many as fit.
- Once no descriptor of the other end is open, it hands out what is left and then the end of
  the stream. No signal interrupts a read.
- `dup` gives another descriptor of the same socket.
- A kqueue keeps one registration for each descriptor and filter. A wait reports nothing but
  registrations, with their cookies, and, as far as there is room, every level-triggered one
  whose descriptor is readable.
