//! Linux's `eventfd(2)` and `epoll(7)` in terms of what macOS has.
//!
//! The rust-vmm crates assume both; these shims are what a vhost-user backend needs of them
//! on macOS.
//!
//! - [`eventfd`]: an event descriptor made of a socket pair;
//! - [`epoll`]: epoll's control operations and waits, made of `kevent` calls.
//!
//! The crate decides which system calls to make and what their replies mean; it makes none.
//! [`sys`] describes how an operation is run.
//!
//! Which calls the operations make, and what they make of the replies, is stated and proved in
//! [`call_laws`]; what they come to on a model of the system, in [`eventfd_laws`],
//! [`epoll_laws`] and [`poll_laws`].

pub mod call_laws;
pub mod darwin;
pub mod epoll;
pub mod epoll_laws;
pub mod event_set;
pub mod eventfd;
pub mod eventfd_laws;
pub mod kqueue;
pub mod model;
pub mod payload;
pub mod poll_laws;
pub mod sys;
pub mod text;
