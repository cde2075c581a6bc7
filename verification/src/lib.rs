//! Core logic of a socket-inspection tool: it joins a snapshot of the
//! host's open TCP/UDP sockets with the process table, classifies and
//! normalizes each socket into a uniform `Connection` record, and applies
//! user-specified filters.  Everything here is pure computation over plain
//! values; reading the kernel tables, rendering and other I/O live in the
//! surrounding binary.

pub mod address_checkers;
pub mod cli;
pub mod config;
pub mod connections;
pub mod markdown;
pub mod schemas;
pub mod services;
pub mod string_utils;
pub mod utils;
pub mod view;
