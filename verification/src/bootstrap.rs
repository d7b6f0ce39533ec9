//! The server bootstrap: the named options an application sets before
//! `start`, and the small decisions the acceptor makes per accepted
//! connection — which worker takes it and what the next connection id is.
//! Binding the listener, accepting, and spawning the reactors happen outside,
//! against these values.

use vstd::prelude::*;

verus! {

/// The per-connection options the bootstrap records; each stays unset until
/// the application names it.
#[derive(Clone, Copy, PartialEq, Eq, Structural, Debug)]
pub struct BootstrapOptions {
    pub ttl_ms: Option<usize>,
    pub linger_ms: Option<usize>,
    pub nodelay: Option<bool>,
    pub keep_alive_ms: Option<usize>,
    pub recv_buf_size: Option<usize>,
    pub send_buf_size: Option<usize>,
    pub read_idle_timeout_ms: Option<usize>,
}

impl BootstrapOptions {
    /// Every option unset.
    pub open spec fn spec_none() -> BootstrapOptions {
        BootstrapOptions {
            ttl_ms: None,
            linger_ms: None,
            nodelay: None,
            keep_alive_ms: None,
            recv_buf_size: None,
            send_buf_size: None,
            read_idle_timeout_ms: None,
        }
    }

    pub fn none() -> (r: BootstrapOptions)
        ensures
            r == BootstrapOptions::spec_none(),
    {
        BootstrapOptions {
            ttl_ms: None,
            linger_ms: None,
            nodelay: None,
            keep_alive_ms: None,
            recv_buf_size: None,
            send_buf_size: None,
            read_idle_timeout_ms: None,
        }
    }
}

/// The server configuration: where to bind, how many workers, the
/// per-connection options, and the stop flag `terminate` sets.
pub struct Bootstrap {
    pub host: String,
    pub port: u16,
    pub worker_count: Option<usize>,
    pub opts: BootstrapOptions,
    pub stopped: bool,
}

impl Bootstrap {
    pub fn new_server_bootstrap() -> (r: Bootstrap)
        ensures
            r.host@ == "0.0.0.0"@,
            r.port == 1511,
            r.worker_count is None,
            r.opts == BootstrapOptions::spec_none(),
            !r.stopped,
    {
        Bootstrap {
            host: String::from_str("0.0.0.0"),
            port: 1511,
            worker_count: None,
            opts: BootstrapOptions::none(),
            stopped: false,
        }
    }

    /// Sets the size of the worker group.
    pub fn worker_group(&mut self, n: usize) -> (r: &mut Bootstrap)
        ensures
            *r == (Bootstrap { worker_count: Some(n), ..*old(self) }),
            *final(self) == *final(r),
    {
        self.worker_count = Some(n);
        self
    }

    /// Sets the connection ttl, in milliseconds.
    pub fn opt_ttl_ms(&mut self, ttl: usize) -> (r: &mut Bootstrap)
        ensures
            *r == (Bootstrap {
                opts: (BootstrapOptions { ttl_ms: Some(ttl), ..old(self).opts }),
                ..*old(self)
            }),
            *final(self) == *final(r),
    {
        self.opts.ttl_ms = Some(ttl);
        self
    }

    /// Sets the linger, in milliseconds.
    pub fn opt_linger_ms(&mut self, linger: usize) -> (r: &mut Bootstrap)
        ensures
            *r == (Bootstrap {
                opts: (BootstrapOptions { linger_ms: Some(linger), ..old(self).opts }),
                ..*old(self)
            }),
            *final(self) == *final(r),
    {
        self.opts.linger_ms = Some(linger);
        self
    }

    /// Sets tcp nodelay.
    pub fn opt_nodelay(&mut self, nodelay: bool) -> (r: &mut Bootstrap)
        ensures
            *r == (Bootstrap {
                opts: (BootstrapOptions { nodelay: Some(nodelay), ..old(self).opts }),
                ..*old(self)
            }),
            *final(self) == *final(r),
    {
        self.opts.nodelay = Some(nodelay);
        self
    }

    /// Sets the keep-alive, in milliseconds.
    pub fn opt_keep_alive_ms(&mut self, keep_alive: usize) -> (r: &mut Bootstrap)
        ensures
            *r == (Bootstrap {
                opts: (BootstrapOptions { keep_alive_ms: Some(keep_alive), ..old(self).opts }),
                ..*old(self)
            }),
            *final(self) == *final(r),
    {
        self.opts.keep_alive_ms = Some(keep_alive);
        self
    }

    /// Sets the receive buffer size.
    pub fn opt_recv_buf_size(&mut self, buf_size: usize) -> (r: &mut Bootstrap)
        ensures
            *r == (Bootstrap {
                opts: (BootstrapOptions { recv_buf_size: Some(buf_size), ..old(self).opts }),
                ..*old(self)
            }),
            *final(self) == *final(r),
    {
        self.opts.recv_buf_size = Some(buf_size);
        self
    }

    /// Sets the send buffer size.
    pub fn opt_send_buf_size(&mut self, buf_size: usize) -> (r: &mut Bootstrap)
        ensures
            *r == (Bootstrap {
                opts: (BootstrapOptions { send_buf_size: Some(buf_size), ..old(self).opts }),
                ..*old(self)
            }),
            *final(self) == *final(r),
    {
        self.opts.send_buf_size = Some(buf_size);
        self
    }

    /// Sets the read-idle timeout: a connection silent longer than this is
    /// evicted by the idle scanner.
    pub fn opt_read_idle_timeout_ms(&mut self, ms: usize) -> (r: &mut Bootstrap)
        ensures
            *r == (Bootstrap {
                opts: (BootstrapOptions { read_idle_timeout_ms: Some(ms), ..old(self).opts }),
                ..*old(self)
            }),
            *final(self) == *final(r),
    {
        self.opts.read_idle_timeout_ms = Some(ms);
        self
    }

    /// Sets the address and port to bind.
    pub fn bind(&mut self, host: &str, port: u16) -> (r: &mut Bootstrap)
        ensures
            r.host@ == host@,
            r.port == port,
            r.worker_count == old(self).worker_count,
            r.opts == old(self).opts,
            r.stopped == old(self).stopped,
            *final(self) == *final(r),
    {
        self.host = String::from_str(host);
        self.port = port;
        self
    }

    /// Stops the server: the acceptor exits after its current poll; shutting
    /// the worker loops down is the caller's part.
    pub fn terminate(&mut self)
        ensures
            *final(self) == (Bootstrap { stopped: true, ..*old(self) }),
    {
        self.stopped = true;
    }
}

/// The next connection id: a dense counter that wraps to zero at the top of
/// the range.
pub fn incr_id(cur_id: usize) -> (r: usize)
    ensures
        cur_id == usize::MAX ==> r == 0,
        cur_id < usize::MAX ==> r == cur_id + 1,
{
    if cur_id == usize::MAX {
        0
    } else {
        cur_id + 1
    }
}

/// Which worker loop of a group of `n` takes the connection `ch_id`.
pub fn pick_worker(ch_id: usize, n: usize) -> (r: usize)
    requires
        n >= 1,
    ensures
        r == ch_id as int % n as int,
        r < n,
{
    ch_id % n
}

} // verus!
