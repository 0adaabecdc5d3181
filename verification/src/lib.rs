//! Core of a replicated priority-queue service for job dispatch.
//!
//! Producers submit jobs with a priority and a payload; consumers receive the
//! most urgent job. An enqueue manager buffers what comes in and distributes
//! it over leaders by weight; each leader replicates a job to its followers
//! in one consensus round; every node keeps its jobs in a min-heap whose
//! priorities age with logical time.
//!
//! The crate holds the rules of the service and nothing that touches the
//! outside world. Transport, storage and process set-up are left to the
//! program around it, which performs the remote calls and the queries and
//! hands their outcome in as plain values.
//!
//! - [`clock`]: the Lamport clock.
//! - [`aging`], [`heap_order`], [`min_heap`]: the aging min-heap.
//! - [`acceptor`]: the follower's side of a consensus round.
//! - [`leader`]: the leader's side of a consensus round.
//! - [`weight`], [`node_list`], [`buffer`], [`load_balancer`]: the weighted
//!   load balancer.
//! - [`manager_state`]: the front of the enqueue manager.
//! - [`api`], [`error`]: what a queue node decides for its clients.
//! - [`consumer_state`]: a consumer's own heap.
//! - [`job`]: the job and the messages that carry it.
//! - [`base64`], [`text`]: payloads and numbers as text.

pub mod acceptor;
pub mod aging;
pub mod api;
pub mod base64;
pub mod buffer;
pub mod clock;
pub mod consumer_state;
pub mod error;
pub mod heap_order;
pub mod job;
pub mod leader;
pub mod load_balancer;
pub mod manager_state;
pub mod min_heap;
pub mod node_list;
pub mod text;
pub mod weight;
