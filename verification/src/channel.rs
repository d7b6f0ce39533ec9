//! Per-connection state: the channel owns the connection's identity, its
//! closed flag, its last-read timestamp and its read-idle timeout. The socket
//! itself lives outside; the channel decides, the caller performs the I/O.

use vstd::prelude::*;

use crate::bytebuf::ByteBuf;

verus! {

/// A per-connection option value, as the bootstrap records it.
#[allow(non_camel_case_types)]
#[derive(Clone, Copy, PartialEq, Eq, Structural, Debug)]
pub enum ChannelOptions {
    NUMBER(usize),
    BOOL(bool),
}

/// One live connection's state. `closed` is monotonic: once set it never
/// clears, subsequent writes are dropped and no further inbound events are
/// produced for the connection. The last-read time is monotonic
/// non-decreasing.
#[derive(Clone, Copy)]
pub struct Channel {
    id: usize,
    closed: bool,
    last_read_time_ms: u64,
    read_idle_timeout_ms: u64,
}

impl Channel {
    pub closed spec fn spec_id(&self) -> usize {
        self.id
    }

    pub closed spec fn spec_closed(&self) -> bool {
        self.closed
    }

    pub closed spec fn spec_last_read_time_ms(&self) -> u64 {
        self.last_read_time_ms
    }

    pub closed spec fn spec_read_idle_timeout_ms(&self) -> u64 {
        self.read_idle_timeout_ms
    }

    /// A fresh, open channel whose last-read time starts at the creation
    /// instant.
    pub fn create(id: usize, read_idle_timeout_ms: u64, now_ms: u64) -> (r: Channel)
        ensures
            r.spec_id() == id,
            !r.spec_closed(),
            r.spec_last_read_time_ms() == now_ms,
            r.spec_read_idle_timeout_ms() == read_idle_timeout_ms,
    {
        Channel { id, closed: false, last_read_time_ms: now_ms, read_idle_timeout_ms }
    }

    pub fn id(&self) -> (r: usize)
        ensures
            r == self.spec_id(),
    {
        self.id
    }

    /// Marks the channel closed. Closing is final: nothing clears the flag.
    pub fn close(&mut self)
        ensures
            final(self).spec_closed(),
            final(self).spec_id() == old(self).spec_id(),
            final(self).spec_last_read_time_ms() == old(self).spec_last_read_time_ms(),
            final(self).spec_read_idle_timeout_ms() == old(self).spec_read_idle_timeout_ms(),
    {
        self.closed = true;
    }

    pub fn is_closed(&self) -> (r: bool)
        ensures
            r == self.spec_closed(),
    {
        self.closed
    }

    pub fn last_read_time_ms(&self) -> (r: u64)
        ensures
            r == self.spec_last_read_time_ms(),
    {
        self.last_read_time_ms
    }

    pub fn read_idle_timeout_ms(&self) -> (r: u64)
        ensures
            r == self.spec_read_idle_timeout_ms(),
    {
        self.read_idle_timeout_ms
    }

    /// Stamps the last-read time. The clock may step backwards; the recorded
    /// time never does.
    pub fn set_last_read_time(&mut self, now_ms: u64)
        ensures
            final(self).spec_last_read_time_ms() == if now_ms > old(
                self,
            ).spec_last_read_time_ms() {
                now_ms
            } else {
                old(self).spec_last_read_time_ms()
            },
            final(self).spec_last_read_time_ms() >= old(self).spec_last_read_time_ms(),
            final(self).spec_id() == old(self).spec_id(),
            final(self).spec_closed() == old(self).spec_closed(),
            final(self).spec_read_idle_timeout_ms() == old(self).spec_read_idle_timeout_ms(),
    {
        if now_ms > self.last_read_time_ms {
            self.last_read_time_ms = now_ms;
        }
    }

    /// The bytes an outgoing buffer puts on the wire, or `None` when the
    /// channel is closed: writes to a closed channel are dropped.
    pub fn write_bytebuf(&self, buf: &ByteBuf) -> (r: Option<Vec<u8>>)
        requires
            buf.wf(),
        ensures
            self.spec_closed() ==> r is None,
            !self.spec_closed() ==> (r matches Some(bytes) && bytes@ == buf.readable_seq()),
    {
        if self.closed {
            None
        } else {
            Some(buf.available_bytes())
        }
    }
}

} // verus!
