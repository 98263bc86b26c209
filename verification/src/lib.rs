//! A minimal TCP echo server, split into a verified core and a thin
//! transport layer.
//!
//! The core is a per-connection state machine ([`handler::Handler`]) that
//! decides, for each read or write outcome the transport reports, what the
//! connection does next, and whose contracts guarantee that every byte read
//! is written back unchanged and in order. The listener configuration lives
//! in [`TcpEcho`]. Binding the socket, accepting connections and moving
//! bytes is left to an unverified shell that drives the state machine.

use vstd::prelude::*;

pub mod handler;

verus! {

/// Configuration of an echo server: the TCP port to listen on and the size
/// of the fixed buffer each connection uses for one read attempt.
///
/// `chunk_size` bounds how many bytes one read/write cycle moves, not the
/// total amount of data a connection may echo.
pub struct TcpEcho {
    chunk_size: usize,
    port: usize,
}

impl TcpEcho {
    /// The port the listening socket binds to.
    pub closed spec fn spec_port(&self) -> usize {
        self.port
    }

    /// The per-read buffer size shared with every connection handler.
    pub closed spec fn spec_chunk_size(&self) -> usize {
        self.chunk_size
    }

    /// A usable configuration: the port is in the valid TCP range and the
    /// buffer holds at least one byte.
    pub open spec fn wf(&self) -> bool {
        &&& 1 <= self.spec_port() <= 65535
        &&& self.spec_chunk_size() >= 1
    }

    pub fn new(port: usize, chunk_size: usize) -> (r: Self)
        requires
            1 <= port <= 65535,
            chunk_size >= 1,
        ensures
            r.spec_port() == port,
            r.spec_chunk_size() == chunk_size,
            r.wf(),
    {
        Self { chunk_size, port }
    }

    pub fn port(&self) -> (r: usize)
        ensures
            r == self.spec_port(),
    {
        self.port
    }

    pub fn chunk_size(&self) -> (r: usize)
        ensures
            r == self.spec_chunk_size(),
    {
        self.chunk_size
    }

    /// The handler for a freshly accepted connection on this server. Each
    /// accepted connection gets a handler of its own; the configured
    /// chunk size is the only thing they share.
    pub fn handler(&self) -> (h: handler::Handler)
        requires
            self.wf(),
        ensures
            h@ == handler::init_model(self.spec_chunk_size() as nat),
            h@.wf(),
    {
        handler::Handler::new(self.chunk_size)
    }
}

/// The label the acceptor gives the next accepted connection. Labels are
/// observability only — no correctness rests on them — so the count wraps
/// rather than fail once its range is exhausted.
pub fn next_connection_id(counter: u64) -> (r: u64)
    ensures
        counter < u64::MAX ==> r == counter + 1,
        counter == u64::MAX ==> r == 0,
{
    if counter == u64::MAX {
        0
    } else {
        counter + 1
    }
}

} // verus!
