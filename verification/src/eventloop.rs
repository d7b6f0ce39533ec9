//! The event loop's own state: the registry of attached channels, the
//! registry of their inbound context chains, and the stopped flag. The
//! selector and the worker thread that poll and dispatch live outside; they
//! attach connections and hand each readable notification to
//! `handle_readable`, which performs the registry bookkeeping and says which
//! events enter the connection's inbound pipeline.

use vstd::prelude::*;

use chashmap::CHashMap;

use crate::channel::Channel;
use crate::chash::channel_map_clear;
use crate::chash::no_channels;
use crate::chash::no_pipes;
use crate::chash::channel_map_contains;
use crate::chash::channel_map_contents;
use crate::chash::channel_map_get;
use crate::chash::channel_map_insert_new;
use crate::chash::channel_map_new;
use crate::chash::channel_map_remove;
use crate::chash::pipe_map_clear;
use crate::chash::pipe_map_contents;
use crate::chash::pipe_map_insert_new;
use crate::chash::pipe_map_new;
use crate::chash::pipe_map_remove;
use crate::lifecycle::ConnDriver;
use crate::lifecycle::ConnPhase;
use crate::lifecycle::EventKind;
use crate::lifecycle::FiredEvent;
use crate::lifecycle::ReadOutcome;
use crate::lifecycle::kinds_of;
use crate::pipeline::ChannelInboundHandlerCtxPipe;
use crate::pipeline::HeadHandler;

verus! {

/// One reactor: a registry of the channels it owns, the paired registry of
/// their inbound context chains, and the stopped flag the shutdown sets.
pub struct EventLoop {
    channel_map: CHashMap<usize, Channel>,
    pipe_map: CHashMap<usize, ChannelInboundHandlerCtxPipe>,
    stopped: bool,
}

impl EventLoop {
    pub closed spec fn spec_channels(&self) -> Map<usize, Channel> {
        channel_map_contents(self.channel_map)
    }

    pub closed spec fn spec_pipes(&self) -> Map<usize, ChannelInboundHandlerCtxPipe> {
        pipe_map_contents(self.pipe_map)
    }

    pub closed spec fn spec_stopped(&self) -> bool {
        self.stopped
    }

    /// The registry invariant: a pipeline entry exists exactly when a channel
    /// entry with the same id exists, and every channel sits under its own
    /// id.
    pub open spec fn inv(&self) -> bool {
        &&& self.spec_channels().dom() =~= self.spec_pipes().dom()
        &&& forall|k: usize|
            self.spec_channels().dom().contains(k) ==> (#[trigger] self.spec_channels()[k]).spec_id()
                == k
    }

    pub fn new() -> (r: EventLoop)
        ensures
            r.inv(),
            !r.spec_stopped(),
            r.spec_channels() == no_channels(),
            r.spec_pipes() == no_pipes(),
    {
        let mut channel_map = channel_map_new();
        channel_map_clear(&mut channel_map);
        let mut pipe_map = pipe_map_new();
        pipe_map_clear(&mut pipe_map);
        let r = EventLoop { channel_map, pipe_map, stopped: false };
        proof {
            assert(r.spec_channels().dom() =~= r.spec_pipes().dom());
        }
        r
    }

    /// Stops the loop: the worker exits after its current poll.
    pub fn shutdown(&mut self)
        ensures
            final(self).spec_stopped(),
            final(self).spec_channels() == old(self).spec_channels(),
            final(self).spec_pipes() == old(self).spec_pipes(),
            old(self).inv() ==> final(self).inv(),
    {
        self.stopped = true;
    }

    pub fn is_stopped(&self) -> (r: bool)
        ensures
            r == self.spec_stopped(),
    {
        self.stopped
    }

    pub fn contains(&self, id: usize) -> (r: bool)
        ensures
            r == self.spec_channels().dom().contains(id),
    {
        channel_map_contains(&self.channel_map, id)
    }

    /// A copy of the registered channel's state, `None` when the id is not
    /// attached. The idle scanner reads last-read times through this.
    pub fn channel_of(&self, id: usize) -> (r: Option<Channel>)
        ensures
            r == if self.spec_channels().dom().contains(id) {
                Some(self.spec_channels()[id])
            } else {
                None::<Channel>
            },
    {
        channel_map_get(&self.channel_map, id)
    }

    /// Closes a registered channel in place: what a user handler does through
    /// its context. No event fires here; the next readable notification turns
    /// the closed channel into the final `inactive`. Closing is monotonic and
    /// an absent id is a no-op.
    pub fn close_channel(&mut self, id: usize)
        requires
            old(self).inv(),
        ensures
            final(self).inv(),
            final(self).spec_stopped() == old(self).spec_stopped(),
            final(self).spec_pipes() == old(self).spec_pipes(),
            final(self).spec_channels().dom() =~= old(self).spec_channels().dom(),
            forall|k: usize|
                k != id && old(self).spec_channels().dom().contains(k)
                    ==> #[trigger] final(self).spec_channels()[k]
                    == old(self).spec_channels()[k],
            old(self).spec_channels().dom().contains(id)
                ==> final(self).spec_channels()[id].spec_closed(),
    {
        let ch_opt = channel_map_remove(&mut self.channel_map, id);
        match ch_opt {
            None => {
                proof {
                    assert(self.spec_channels() =~= old(self).spec_channels());
                }
            },
            Some(mut channel) => {
                channel.close();
                channel_map_insert_new(&mut self.channel_map, id, channel);
                proof {
                    assert(self.spec_channels().dom() =~= old(self).spec_channels().dom());
                }
            },
        }
    }

    /// Attaches a fresh connection: the channel and its inbound chain enter
    /// the registries under the connection id, and the connection's first —
    /// and only — `active` event is produced, the head having stamped the
    /// last-read time.
    pub fn attach(
        &mut self,
        id: usize,
        channel: Channel,
        ctx_inbound_ctx_pipe: ChannelInboundHandlerCtxPipe,
        driver: &mut ConnDriver,
    ) -> (ev: FiredEvent)
        requires
            old(self).inv(),
            !old(self).spec_stopped(),
            !old(self).spec_channels().dom().contains(id),
            channel.spec_id() == id,
            !channel.spec_closed(),
            old(driver).inv(),
            old(driver).spec_phase() == ConnPhase::Fresh,
        ensures
            final(self).inv(),
            final(self).spec_stopped() == old(self).spec_stopped(),
            final(self).spec_pipes() == old(self).spec_pipes().insert(id, ctx_inbound_ctx_pipe),
            final(self).spec_channels().dom() =~= old(self).spec_channels().dom().insert(id),
            forall|k: usize|
                k != id && old(self).spec_channels().dom().contains(k)
                    ==> #[trigger] final(self).spec_channels()[k]
                    == old(self).spec_channels()[k],
            final(self).spec_channels()[id].spec_id() == id,
            !final(self).spec_channels()[id].spec_closed(),
            final(self).spec_channels()[id].spec_read_idle_timeout_ms()
                == channel.spec_read_idle_timeout_ms(),
            final(self).spec_channels()[id].spec_last_read_time_ms()
                >= channel.spec_last_read_time_ms(),
            ev is Active,
            final(driver).inv(),
            final(driver).spec_phase() == ConnPhase::Active,
            final(driver).spec_trace() == old(driver).spec_trace().push(EventKind::Active),
    {
        let mut channel = channel;
        let head = HeadHandler::new();
        head.channel_active(&mut channel);
        let ev = driver.activate();
        pipe_map_insert_new(&mut self.pipe_map, id, ctx_inbound_ctx_pipe);
        channel_map_insert_new(&mut self.channel_map, id, channel);
        proof {
            assert(self.spec_channels().dom() =~= self.spec_pipes().dom());
        }
        ev
    }

    /// One readable notification for the connection `id`, its raw read
    /// already classified. A spurious id produces nothing. Otherwise: data
    /// stamps the last-read time and becomes one `read` event; a retryable
    /// read produces nothing; an error becomes one `exception` event; the end
    /// of the stream — or a channel a handler closed earlier — closes the
    /// connection: both registry entries leave and the single final
    /// `inactive` event is produced.
    pub fn handle_readable(
        &mut self,
        id: usize,
        outcome: ReadOutcome,
        driver: &mut ConnDriver,
    ) -> (evs: Vec<FiredEvent>)
        requires
            old(self).inv(),
            old(driver).inv(),
            old(driver).spec_phase() == ConnPhase::Active,
        ensures
            final(self).inv(),
            final(self).spec_stopped() == old(self).spec_stopped(),
            final(driver).inv(),
            final(driver).spec_trace() == old(driver).spec_trace() + kinds_of(evs@),
            !old(self).spec_channels().dom().contains(id) ==> {
                &&& evs@ == Seq::<FiredEvent>::empty()
                &&& final(self).spec_channels() == old(self).spec_channels()
                &&& final(self).spec_pipes() == old(self).spec_pipes()
                &&& *final(driver) == *old(driver)
            },
            old(self).spec_channels().dom().contains(id)
                && (old(self).spec_channels()[id].spec_closed() || outcome is Eof) ==> {
                &&& evs@ =~= seq![FiredEvent::Inactive]
                &&& final(self).spec_channels() == old(self).spec_channels().remove(id)
                &&& final(self).spec_pipes() == old(self).spec_pipes().remove(id)
                &&& final(driver).spec_phase() == ConnPhase::Closed
            },
            old(self).spec_channels().dom().contains(id)
                && !old(self).spec_channels()[id].spec_closed() && !(outcome is Eof) ==> {
                &&& final(self).spec_pipes() == old(self).spec_pipes()
                &&& final(self).spec_channels().dom() =~= old(self).spec_channels().dom()
                &&& final(driver).spec_phase() == ConnPhase::Active
                &&& final(self).spec_channels()[id].spec_read_idle_timeout_ms()
                    == old(self).spec_channels()[id].spec_read_idle_timeout_ms()
                &&& final(self).spec_channels()[id].spec_last_read_time_ms()
                    >= old(self).spec_channels()[id].spec_last_read_time_ms()
                &&& forall|k: usize|
                    k != id && old(self).spec_channels().dom().contains(k)
                        ==> #[trigger] final(self).spec_channels()[k]
                        == old(self).spec_channels()[k]
                &&& match outcome {
                    ReadOutcome::Data(bytes) => evs@ =~= seq![FiredEvent::Read(bytes)],
                    ReadOutcome::WouldBlock => evs@ =~= Seq::<FiredEvent>::empty(),
                    ReadOutcome::Failed(err) => evs@ =~= seq![FiredEvent::Exception(err)],
                    ReadOutcome::Eof => true,
                }
            },
    {
        let ch_opt = channel_map_remove(&mut self.channel_map, id);
        match ch_opt {
            None => {
                proof {
                    assert(self.spec_channels() =~= old(self).spec_channels());
                }
                Vec::new()
            },
            Some(mut channel) => {
                let is_data = match &outcome {
                    ReadOutcome::Data(_) => true,
                    _ => false,
                };
                let evs = driver.poll_step(&mut channel, outcome);
                if channel.is_closed() {
                    let _pipe = pipe_map_remove(&mut self.pipe_map, id);
                    proof {
                        assert(self.spec_channels().dom() =~= self.spec_pipes().dom());
                    }
                    evs
                } else {
                    if is_data {
                        let head = HeadHandler::new();
                        head.channel_read(&mut channel);
                    }
                    channel_map_insert_new(&mut self.channel_map, id, channel);
                    proof {
                        assert(self.spec_channels().dom() =~= old(self).spec_channels().dom());
                        assert(self.spec_channels().dom() =~= self.spec_pipes().dom());
                    }
                    evs
                }
            },
        }
    }
}

/// A group of event loops and the round-robin cursor that deals connections
/// out to them.
pub struct EventLoopGroup {
    pub group: Vec<EventLoop>,
    pub eventloop_num: usize,
    pub next_idx: usize,
}

impl EventLoopGroup {
    pub open spec fn inv(&self) -> bool {
        &&& self.group@.len() >= 1
        &&& self.eventloop_num == self.group@.len()
        &&& self.next_idx < self.group@.len()
        &&& forall|i: int| 0 <= i < self.group@.len() ==> (#[trigger] self.group@[i]).inv()
    }

    pub fn new(n: usize) -> (r: EventLoopGroup)
        requires
            n >= 1,
        ensures
            r.inv(),
            r.group@.len() == n,
            r.next_idx == 0,
    {
        let mut group: Vec<EventLoop> = Vec::new();
        let mut i: usize = 0;
        while i < n
            invariant
                i <= n,
                group@.len() == i,
                forall|k: int| 0 <= k < i ==> (#[trigger] group@[k]).inv(),
            decreases n - i,
        {
            group.push(EventLoop::new());
            i = i + 1;
        }
        EventLoopGroup { group, eventloop_num: n, next_idx: 0 }
    }

    pub fn new_default_event_loop_group(n: usize) -> (r: EventLoopGroup)
        requires
            n >= 1,
        ensures
            r.inv(),
            r.group@.len() == n,
            r.next_idx == 0,
    {
        EventLoopGroup::new(n)
    }

    /// Strict round robin: the index of the loop to use now; the cursor
    /// advances by one and wraps at the end of the group.
    pub fn next(&mut self) -> (r: usize)
        requires
            old(self).inv(),
        ensures
            final(self).inv(),
            r == old(self).next_idx,
            r < old(self).group@.len(),
            final(self).next_idx == (old(self).next_idx + 1) % (old(self).group@.len() as int),
            final(self).group@ == old(self).group@,
            final(self).eventloop_num == old(self).eventloop_num,
    {
        let n = self.group.len();
        let r = self.next_idx;
        self.next_idx = if r + 1 >= n {
            0
        } else {
            r + 1
        };
        proof {
            if r + 1 < n {
                vstd::arithmetic::div_mod::lemma_small_mod((r + 1) as nat, n as nat);
            } else {
                vstd::arithmetic::div_mod::lemma_mod_self_0(n as int);
            }
        }
        r
    }

    pub fn len(&self) -> (r: usize)
        ensures
            r == self.group@.len(),
    {
        self.group.len()
    }

    /// The loop at `i`, for the caller that polls or attaches on it.
    pub fn loop_at(&mut self, i: usize) -> (r: &mut EventLoop)
        requires
            i < old(self).group@.len(),
        ensures
            *r == old(self).group@[i as int],
            final(self).group@ == old(self).group@.update(i as int, *final(r)),
            final(self).eventloop_num == old(self).eventloop_num,
            final(self).next_idx == old(self).next_idx,
    {
        &mut self.group[i]
    }

    /// Shuts every loop in the group down.
    pub fn shutdown_all(&mut self)
        requires
            old(self).inv(),
        ensures
            final(self).inv(),
            final(self).group@.len() == old(self).group@.len(),
            forall|i: int|
                0 <= i < final(self).group@.len()
                    ==> (#[trigger] final(self).group@[i]).spec_stopped(),
    {
        let mut i: usize = 0;
        while i < self.group.len()
            invariant
                self.inv(),
                self.group@.len() == old(self).group@.len(),
                i <= self.group@.len(),
                forall|k: int| 0 <= k < i ==> (#[trigger] self.group@[k]).spec_stopped(),
            decreases self.group@.len() - i,
        {
            let ghost g0 = self.group@;
            let mut lp = self.group.remove(i);
            lp.shutdown();
            self.group.insert(i, lp);
            proof {
                assert(self.group@ =~= g0.update(i as int, lp));
                assert(lp.inv());
                assert(lp.spec_stopped());
            }
            i = i + 1;
        }
    }
}

} // verus!
