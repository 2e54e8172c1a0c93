//! A network benchmarking harness: the verified core.
//!
//! The crate holds the rules of the harness as functions on plain values:
//! the work model and its textual form, the chunked framing of messages, the
//! binary layout of request and response packets, latency accounting, and
//! the decisions that the clients and servers take between two transfers.
//! Sockets, threads and clocks belong to the program built around it.

use vstd::prelude::*;

pub mod app;
pub mod chunked_tcp_stream;
pub mod closed_loop_client;
pub mod decimal;
pub mod io_uring;
pub mod io_uring_server;
pub mod io_vec_server;
pub mod open_loop_client;
pub mod protocol;
pub mod serialize;
pub mod server_kind;
pub mod tcp_server;

verus! {

/// Wall-clock time, in microseconds since the Unix epoch.
///
/// Reads `std::time::SystemTime::now`. Nothing is claimed of the value: two
/// readings need not even be ordered. A clock set before the epoch reads 0.
#[verifier::external_body]
pub fn get_current_time_micros() -> u64 {
    match std::time::SystemTime::now().duration_since(std::time::UNIX_EPOCH) {
        Ok(d) => d.as_micros() as u64,
        Err(_) => 0,
    }
}

} // verus!
