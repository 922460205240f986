use vstd::prelude::*;

verus! {

/// The first port the echo server tries.
pub const FIRST_PORT: u16 = 2224;

/// What to do after trying to bind a port.
pub enum PortProbe {
    /// The port is free: serve on it.
    Available(u16),
    /// The port is taken: try this one next.
    TryNext(u16),
    /// The last port is taken too: no port is available.
    Exhausted,
}

/// Decides the next move of the search for a free port after a bind attempt on `port`.
pub fn port_probe_step(port: u16, bind_succeeded: bool) -> (next: PortProbe)
    ensures
        bind_succeeded ==> next == PortProbe::Available(port),
        !bind_succeeded && port < u16::MAX ==> next == PortProbe::TryNext((port + 1) as u16),
        !bind_succeeded && port == u16::MAX ==> next == PortProbe::Exhausted,
{
    if bind_succeeded {
        PortProbe::Available(port)
    } else if port < u16::MAX {
        PortProbe::TryNext(port + 1)
    } else {
        PortProbe::Exhausted
    }
}

/// The port a search that starts at `start` finds, given which ports are free (`free(p)`):
/// the first free port from `start` up to the last port, if there is one.
pub open spec fn search_result(start: int, free: spec_fn(int) -> bool) -> Option<int>
    decreases 0x1_0000 - start,
{
    if start > u16::MAX || start < 0 {
        None
    } else if free(start) {
        Some(start)
    } else {
        search_result(start + 1, free)
    }
}

/// Following `port_probe_step` from `port` finds what `search_result` says: when `port` is
/// taken the search goes on at the next port, or reports that none is free after the last one.
pub proof fn lemma_probe_follows_search(port: u16, free: spec_fn(int) -> bool)
    ensures
        free(port as int) ==> search_result(port as int, free) == Some(port as int),
        !free(port as int) && port < u16::MAX ==> search_result(port as int, free) == search_result(
            port + 1,
            free,
        ),
        !free(port as int) && port == u16::MAX ==> search_result(port as int, free) is None,
{
    if !free(port as int) && port == u16::MAX {
        assert(search_result(port + 1, free) is None);
    }
}

/// What to do after a read from a client.
pub enum EchoAction {
    /// This many bytes came in (possibly none): send exactly them back and keep serving.
    WriteBack(usize),
    /// The read failed: report it, shut the connection down and stop.
    ShutdownAndStop,
}

/// Decides what follows a read from a client: `Some(n)` when `n` bytes were read, `None` when
/// the read failed.
pub fn echo_after_read(read: Option<usize>) -> (action: EchoAction)
    ensures
        read matches Some(n) ==> action == EchoAction::WriteBack(n),
        read is None ==> action == EchoAction::ShutdownAndStop,
{
    match read {
        Some(n) => EchoAction::WriteBack(n),
        None => EchoAction::ShutdownAndStop,
    }
}

/// Whether the connection is shut down after sending data back: only when the send failed.
/// Serving goes on either way.
pub fn echo_shutdown_after_write(write_ok: bool) -> (shutdown: bool)
    ensures
        shutdown == !write_ok,
{
    !write_ok
}

} // verus!
