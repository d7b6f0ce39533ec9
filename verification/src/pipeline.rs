//! The per-connection handler pipelines. User handlers are registered as an
//! ordered list per direction; per connection each list becomes a chain of
//! contexts, one per handler, every context linking to its successor by
//! index. The inbound chain gets the framework head (the timestamp stamper)
//! prepended; the outbound chain is the user list reversed with the framework
//! tail (the socket writer) appended, so a write visits user handlers from
//! last-registered to first before it reaches the wire.

use vstd::prelude::*;

use crate::bytebuf::ByteBuf;
use crate::channel::Channel;
use crate::clock::now_millis;

verus! {

/// A message handed from handler to handler. The concrete meaning is a
/// protocol contract between adjacent handlers; the framework itself only
/// distinguishes a byte buffer from everything else.
pub enum Message {
    Buf(ByteBuf),
    Opaque,
}

/// The inbound handlers an application registers, by id, in registration
/// order. The ids name the handler instances the application keeps beside the
/// chain.
pub struct ChannelInboundHandlerPipe {
    pub handlers: Vec<String>,
}

impl ChannelInboundHandlerPipe {
    pub fn new() -> (r: ChannelInboundHandlerPipe)
        ensures
            r.handlers@ == Seq::<String>::empty(),
    {
        let r = ChannelInboundHandlerPipe { handlers: Vec::new() };
        proof {
            assert(r.handlers@ =~= Seq::<String>::empty());
        }
        r
    }

    pub fn add_last(&mut self, handler: String)
        ensures
            final(self).handlers@ == old(self).handlers@.push(handler),
    {
        self.handlers.push(handler);
    }

    pub fn add_first(&mut self, handler: String)
        ensures
            final(self).handlers@ == seq![handler] + old(self).handlers@,
    {
        self.handlers.insert(0, handler);
        proof {
            assert(self.handlers@ =~= seq![handler] + old(self).handlers@);
        }
    }
}

impl Default for ChannelInboundHandlerPipe {
    fn default() -> (r: ChannelInboundHandlerPipe)
        ensures
            r.handlers@ == Seq::<String>::empty(),
    {
        ChannelInboundHandlerPipe::new()
    }
}

/// The outbound handlers an application registers, by id, in registration
/// order.
pub struct ChannelOutboundHandlerPipe {
    pub handlers: Vec<String>,
}

impl ChannelOutboundHandlerPipe {
    pub fn new() -> (r: ChannelOutboundHandlerPipe)
        ensures
            r.handlers@ == Seq::<String>::empty(),
    {
        let r = ChannelOutboundHandlerPipe { handlers: Vec::new() };
        proof {
            assert(r.handlers@ =~= Seq::<String>::empty());
        }
        r
    }

    pub fn add_last(&mut self, handler: String)
        ensures
            final(self).handlers@ == old(self).handlers@.push(handler),
    {
        self.handlers.push(handler);
    }

    pub fn add_first(&mut self, handler: String)
        ensures
            final(self).handlers@ == seq![handler] + old(self).handlers@,
    {
        self.handlers.insert(0, handler);
        proof {
            assert(self.handlers@ =~= seq![handler] + old(self).handlers@);
        }
    }
}

impl Default for ChannelOutboundHandlerPipe {
    fn default() -> (r: ChannelOutboundHandlerPipe)
        ensures
            r.handlers@ == Seq::<String>::empty(),
    {
        ChannelOutboundHandlerPipe::new()
    }
}

/// One context: the per-connection node owning a handler's place in its
/// chain. `next` is the index of the successor context, `None` at the tail.
pub struct HandlerCtxNode {
    pub id: String,
    pub next: Option<usize>,
}

/// The ids of a context chain, in chain order.
pub open spec fn ctx_ids(ctxs: Seq<HandlerCtxNode>) -> Seq<Seq<char>> {
    ctxs.map_values(|c: HandlerCtxNode| c.id@)
}

/// A well-wired chain: every context links to the one after it, the last to
/// nothing. The chain is acyclic by construction.
pub open spec fn wired(ctxs: Seq<HandlerCtxNode>) -> bool {
    ctxs.len() <= usize::MAX && forall|i: int|
        0 <= i < ctxs.len() ==> #[trigger] ctxs[i].next == (if i + 1 < ctxs.len() {
            Some((i + 1) as usize)
        } else {
            None::<usize>
        })
}

/// The ids an event visits when fired at the context `i`: the context's own
/// handler, then whatever following the links visits. The fuel only bounds
/// the walk; a wired chain never exhausts it.
pub open spec fn walk_links(ctxs: Seq<HandlerCtxNode>, i: int, fuel: nat) -> Seq<Seq<char>>
    decreases fuel,
{
    if fuel == 0 || !(0 <= i < ctxs.len()) {
        Seq::empty()
    } else {
        seq![ctxs[i].id@] + (match ctxs[i].next {
            Some(j) => walk_links(ctxs, j as int, (fuel - 1) as nat),
            None => Seq::empty(),
        })
    }
}

/// In a wired chain, the walk from position `i` visits exactly the ids from
/// `i` on, in chain order.
pub proof fn lemma_walk_wired(ctxs: Seq<HandlerCtxNode>, i: int)
    requires
        wired(ctxs),
        0 <= i <= ctxs.len(),
    ensures
        walk_links(ctxs, i, (ctxs.len() - i) as nat) == ctx_ids(ctxs).skip(i),
    decreases ctxs.len() - i,
{
    if i < ctxs.len() {
        lemma_walk_wired(ctxs, i + 1);
        assert(ctxs[i].next == (if i + 1 < ctxs.len() {
            Some((i + 1) as usize)
        } else {
            None::<usize>
        }));
        if i + 1 < ctxs.len() {
            assert(walk_links(ctxs, i, (ctxs.len() - i) as nat) == seq![ctxs[i].id@]
                + walk_links(ctxs, i + 1, (ctxs.len() - (i + 1)) as nat));
        } else {
            assert(walk_links(ctxs, i, (ctxs.len() - i) as nat) == seq![ctxs[i].id@]
                + Seq::<Seq<char>>::empty());
        }
        assert(walk_links(ctxs, i, (ctxs.len() - i) as nat) =~= ctx_ids(ctxs).skip(i));
    } else {
        assert(walk_links(ctxs, i, 0) =~= ctx_ids(ctxs).skip(i));
    }
}

/// The chain of inbound contexts of one connection, head context first.
pub struct ChannelInboundHandlerCtxPipe {
    pub ctxs: Vec<HandlerCtxNode>,
}

impl ChannelInboundHandlerCtxPipe {
    pub open spec fn wf(&self) -> bool {
        &&& wired(self.ctxs@)
        &&& self.ctxs@.len() >= 1
        &&& self.ctxs@[0].id@ == "HEAD"@
    }

    pub open spec fn ids(&self) -> Seq<Seq<char>> {
        ctx_ids(self.ctxs@)
    }

    /// The ids visited, in order, when an event enters at the head.
    pub open spec fn delivery(&self) -> Seq<Seq<char>> {
        walk_links(self.ctxs@, 0, self.ctxs@.len() as nat)
    }

    pub fn len(&self) -> (r: usize)
        ensures
            r == self.ids().len(),
    {
        self.ctxs.len()
    }

    /// The successor of the context at `i`: where a `fire` from `i` goes.
    pub fn next_of(&self, i: usize) -> (r: Option<usize>)
        requires
            i < self.ids().len(),
        ensures
            r == self.ctxs@[i as int].next,
    {
        self.ctxs[i].next
    }
}

/// The chain of outbound contexts of one connection. The first context is
/// the entry point of `write_and_flush`; the last is the framework tail.
pub struct ChannelOutboundHandlerCtxPipe {
    pub ctxs: Vec<HandlerCtxNode>,
}

impl ChannelOutboundHandlerCtxPipe {
    pub open spec fn wf(&self) -> bool {
        &&& wired(self.ctxs@)
        &&& self.ctxs@.len() >= 1
        &&& self.ctxs@.last().id@ == "TAIL"@
    }

    pub open spec fn ids(&self) -> Seq<Seq<char>> {
        ctx_ids(self.ctxs@)
    }

    /// The ids visited, in order, by a write entering at the chain's head.
    pub open spec fn delivery(&self) -> Seq<Seq<char>> {
        walk_links(self.ctxs@, 0, self.ctxs@.len() as nat)
    }

    pub fn len(&self) -> (r: usize)
        ensures
            r == self.ids().len(),
    {
        self.ctxs.len()
    }

    pub fn next_of(&self, i: usize) -> (r: Option<usize>)
        requires
            i < self.ids().len(),
        ensures
            r == self.ctxs@[i as int].next,
    {
        self.ctxs[i].next
    }
}

/// Builds the inbound context chain of one connection: the framework head
/// first, then one context per registered handler, in registration order,
/// each context wired to the next.
pub fn build_inbound_ctx_pipe(handler_pipe: &ChannelInboundHandlerPipe) -> (r:
    ChannelInboundHandlerCtxPipe)
    requires
        handler_pipe.handlers@.len() < usize::MAX,
    ensures
        r.wf(),
        r.ids() == seq!["HEAD"@] + handler_pipe.handlers@.map_values(|h: String| h@),
{
    let total = handler_pipe.handlers.len() + 1;
    let mut ctxs: Vec<HandlerCtxNode> = Vec::new();
    let head = HandlerCtxNode {
        id: String::from_str("HEAD"),
        next: if total > 1 {
            Some(1)
        } else {
            None
        },
    };
    ctxs.push(head);
    let mut i: usize = 0;
    while i < handler_pipe.handlers.len()
        invariant
            i <= handler_pipe.handlers@.len(),
            total == handler_pipe.handlers@.len() + 1,
            ctxs@.len() == i + 1,
            ctx_ids(ctxs@) == seq!["HEAD"@] + handler_pipe.handlers@.map_values(
                |h: String| h@,
            ).take(i as int),
            forall|k: int|
                0 <= k < ctxs@.len() ==> #[trigger] ctxs@[k].next == (if k + 1 < total {
                    Some((k + 1) as usize)
                } else {
                    None::<usize>
                }),
        decreases handler_pipe.handlers@.len() - i,
    {
        let id = handler_pipe.handlers[i].clone();
        let node = HandlerCtxNode {
            id,
            next: if i + 2 < total {
                Some(i + 2)
            } else {
                None
            },
        };
        proof {
            let users = handler_pipe.handlers@.map_values(|h: String| h@);
            assert(ctx_ids(ctxs@.push(node)) =~= ctx_ids(ctxs@).push(node.id@));
            assert((seq!["HEAD"@] + users.take(i as int)).push(users[i as int]) =~= seq!["HEAD"@]
                + users.take(i + 1));
        }
        ctxs.push(node);
        i = i + 1;
    }
    proof {
        let users = handler_pipe.handlers@.map_values(|h: String| h@);
        assert(users.take(users.len() as int) =~= users);
        assert(ctxs@.len() == total);
        assert(forall|k: int|
            0 <= k < ctxs@.len() ==> #[trigger] ctxs@[k].next == (if k + 1 < ctxs@.len() {
                Some((k + 1) as usize)
            } else {
                None::<usize>
            }));
        assert(ctxs@[0].id@ == ctx_ids(ctxs@)[0]);
    }
    ChannelInboundHandlerCtxPipe { ctxs }
}

/// Builds the outbound context chain of one connection: one context per
/// registered handler in the reverse of registration order, then the
/// framework tail, each context wired to the next.
pub fn build_outbound_ctx_pipe(handler_pipe: &ChannelOutboundHandlerPipe) -> (r:
    ChannelOutboundHandlerCtxPipe)
    requires
        handler_pipe.handlers@.len() < usize::MAX,
    ensures
        r.wf(),
        r.ids() == handler_pipe.handlers@.map_values(|h: String| h@).reverse() + seq!["TAIL"@],
{
    let n = handler_pipe.handlers.len();
    let total = n + 1;
    let mut ctxs: Vec<HandlerCtxNode> = Vec::new();
    let mut i: usize = 0;
    while i < n
        invariant
            i <= n,
            n == handler_pipe.handlers@.len(),
            total == n + 1,
            ctxs@.len() == i,
            ctx_ids(ctxs@) == handler_pipe.handlers@.map_values(|h: String| h@).reverse().take(
                i as int,
            ),
            forall|k: int|
                0 <= k < ctxs@.len() ==> #[trigger] ctxs@[k].next == (if k + 1 < total {
                    Some((k + 1) as usize)
                } else {
                    None::<usize>
                }),
        decreases n - i,
    {
        let id = handler_pipe.handlers[n - 1 - i].clone();
        let node = HandlerCtxNode {
            id,
            next: if i + 1 < total {
                Some(i + 1)
            } else {
                None
            },
        };
        proof {
            let users = handler_pipe.handlers@.map_values(|h: String| h@);
            assert(users.reverse()[i as int] == users[n - 1 - i]);
            assert(ctx_ids(ctxs@.push(node)) =~= ctx_ids(ctxs@).push(node.id@));
            assert(users.reverse().take(i as int).push(users.reverse()[i as int])
                =~= users.reverse().take(i + 1));
        }
        ctxs.push(node);
        i = i + 1;
    }
    let tail = HandlerCtxNode { id: String::from_str("TAIL"), next: None };
    proof {
        let users = handler_pipe.handlers@.map_values(|h: String| h@);
        assert(users.reverse().take(n as int) =~= users.reverse());
        assert(ctx_ids(ctxs@.push(tail)) =~= users.reverse() + seq!["TAIL"@]);
    }
    ctxs.push(tail);
    ChannelOutboundHandlerCtxPipe { ctxs }
}

/// Pipeline direction. Inbound: with handlers registered `[A, B, ...]`, an
/// upstream read entering at the head is delivered in order `HEAD, A, B,
/// ...`. Outbound: with handlers registered `[X, Y, ...]`, a `write_and_flush`
/// entering the outbound chain is delivered in the reverse of registration
/// order and reaches the tail writer last.
pub proof fn lemma_pipeline_direction(
    inp: ChannelInboundHandlerCtxPipe,
    outp: ChannelOutboundHandlerCtxPipe,
    inbound_users: Seq<Seq<char>>,
    outbound_users: Seq<Seq<char>>,
)
    requires
        inp.wf(),
        inp.ids() == seq!["HEAD"@] + inbound_users,
        outp.wf(),
        outp.ids() == outbound_users.reverse() + seq!["TAIL"@],
    ensures
        inp.delivery() == seq!["HEAD"@] + inbound_users,
        outp.delivery() == outbound_users.reverse() + seq!["TAIL"@],
{
    lemma_walk_wired(inp.ctxs@, 0);
    assert(ctx_ids(inp.ctxs@).skip(0) =~= inp.ids());
    lemma_walk_wired(outp.ctxs@, 0);
    assert(ctx_ids(outp.ctxs@).skip(0) =~= outp.ids());
}

/// The framework head handler: stamps the channel's last-read time on
/// activation and on every read, then the event moves on unchanged.
pub struct HeadHandler {}

impl HeadHandler {
    pub fn new() -> (r: HeadHandler) {
        HeadHandler {  }
    }

    pub fn id(&self) -> (r: String)
        ensures
            r@ == "HEAD"@,
    {
        String::from_str("HEAD")
    }

    /// On activation: stamp the last-read time with the clock, monotonically.
    pub fn channel_active(&self, channel: &mut Channel)
        ensures
            final(channel).spec_last_read_time_ms() >= old(channel).spec_last_read_time_ms(),
            final(channel).spec_id() == old(channel).spec_id(),
            final(channel).spec_closed() == old(channel).spec_closed(),
            final(channel).spec_read_idle_timeout_ms()
                == old(channel).spec_read_idle_timeout_ms(),
    {
        let now_ms = now_millis();
        channel.set_last_read_time(now_ms);
    }

    /// On every read: stamp the last-read time with the clock, monotonically.
    pub fn channel_read(&self, channel: &mut Channel)
        ensures
            final(channel).spec_last_read_time_ms() >= old(channel).spec_last_read_time_ms(),
            final(channel).spec_id() == old(channel).spec_id(),
            final(channel).spec_closed() == old(channel).spec_closed(),
            final(channel).spec_read_idle_timeout_ms()
                == old(channel).spec_read_idle_timeout_ms(),
    {
        let now_ms = now_millis();
        channel.set_last_read_time(now_ms);
    }
}

/// The framework tail handler of the outbound chain: the terminal writer. A
/// byte-buffer message becomes the bytes to put on the wire; anything else is
/// dropped, as is every write on a closed channel.
pub struct TailHandler {}

impl TailHandler {
    pub fn new() -> (r: TailHandler) {
        TailHandler {  }
    }

    pub fn id(&self) -> (r: String)
        ensures
            r@ == "TAIL"@,
    {
        String::from_str("TAIL")
    }

    /// The bytes this write puts on the wire: the message's readable bytes,
    /// unless the message is no byte buffer or the channel is closed.
    pub fn channel_write(&self, channel: &Channel, message: &Message) -> (r: Option<Vec<u8>>)
        requires
            message matches Message::Buf(b) ==> b.wf(),
        ensures
            match *message {
                Message::Buf(ref b) => {
                    &&& channel.spec_closed() ==> r is None
                    &&& !channel.spec_closed() ==> (r matches Some(bytes) && bytes@
                        == b.readable_seq())
                },
                Message::Opaque => r is None,
            },
    {
        match message {
            Message::Buf(buf) => channel.write_bytebuf(buf),
            Message::Opaque => None,
        }
    }
}

} // verus!
