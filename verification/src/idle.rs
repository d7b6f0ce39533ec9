//! The idle scanner's decisions. The scanner thread sweeps snapshots of the
//! registered channels; every connection whose last read lies further back
//! than its read-idle timeout is picked for eviction, and the timeout error
//! it receives is built here. The sweeping itself — the clock, the sleeps,
//! the bounded queue — stays with the caller.

use vstd::prelude::*;

use crate::channel::Channel;
use crate::errors::ErrorCategory;
use crate::errors::RettyErrorKind;

verus! {

/// A connection is idle at `now` when more than its timeout has passed since
/// its last read.
pub open spec fn spec_is_idle(now: u64, last_read_ms: u64, timeout_ms: u64) -> bool {
    now > last_read_ms + timeout_ms
}

/// The ids of the idle channels, in the order the snapshot lists them.
pub open spec fn idle_ids(channels: Seq<Channel>, now: u64) -> Seq<usize>
    decreases channels.len(),
{
    if channels.len() == 0 {
        Seq::empty()
    } else {
        idle_ids(channels.drop_last(), now) + (if spec_is_idle(
            now,
            channels.last().spec_last_read_time_ms(),
            channels.last().spec_read_idle_timeout_ms(),
        ) {
            seq![channels.last().spec_id()]
        } else {
            Seq::empty()
        })
    }
}

/// Whether the connection is idle at `now`: more than `timeout_ms` have
/// passed since `last_read_ms`.
pub fn is_idle(now: u64, last_read_ms: u64, timeout_ms: u64) -> (r: bool)
    ensures
        r == spec_is_idle(now, last_read_ms, timeout_ms),
{
    now > last_read_ms && now - last_read_ms > timeout_ms
}

/// The error an evicted connection receives in its inbound pipeline.
pub fn read_idle_timeout_error() -> (r: RettyErrorKind)
    ensures
        r.kind == ErrorCategory::TimedOut,
        r.message@ == "ReadIdleTimeout"@,
{
    RettyErrorKind::new(ErrorCategory::TimedOut, String::from_str("ReadIdleTimeout"))
}

/// One sweep over a snapshot of the registered channels: the ids to evict,
/// each exactly the connections idle at `now`, in snapshot order.
pub fn sweep_idle(channels: &Vec<Channel>, now: u64) -> (r: Vec<usize>)
    ensures
        r@ == idle_ids(channels@, now),
{
    let mut r: Vec<usize> = Vec::new();
    let mut i: usize = 0;
    while i < channels.len()
        invariant
            i <= channels@.len(),
            r@ == idle_ids(channels@.take(i as int), now),
        decreases channels@.len() - i,
    {
        let ch = &channels[i];
        proof {
            assert(channels@.take(i + 1).drop_last() =~= channels@.take(i as int));
            assert(channels@.take(i + 1).last() == channels@[i as int]);
        }
        if is_idle(now, ch.last_read_time_ms(), ch.read_idle_timeout_ms()) {
            r.push(ch.id());
            proof {
                assert(r@ =~= idle_ids(channels@.take(i + 1), now));
            }
        } else {
            proof {
                assert(r@ =~= idle_ids(channels@.take(i + 1), now));
            }
        }
        i = i + 1;
    }
    proof {
        assert(channels@.take(channels@.len() as int) =~= channels@);
    }
    r
}

/// Some channel of the snapshot is idle at `now` and carries this id.
pub open spec fn idle_witness(channels: Seq<Channel>, now: u64, id: usize) -> bool {
    exists|j: int|
        0 <= j < channels.len() && (#[trigger] channels[j]).spec_id() == id && spec_is_idle(
            now,
            channels[j].spec_last_read_time_ms(),
            channels[j].spec_read_idle_timeout_ms(),
        )
}

/// Idle eviction is sound and complete for a sweep: a connection's id is
/// picked exactly when more than its read-idle timeout has passed since its
/// last read.
pub proof fn lemma_idle_eviction(channels: Seq<Channel>, now: u64)
    ensures
        forall|j: int|
            0 <= j < channels.len() && spec_is_idle(
                now,
                (#[trigger] channels[j]).spec_last_read_time_ms(),
                channels[j].spec_read_idle_timeout_ms(),
            ) ==> idle_ids(channels, now).contains(channels[j].spec_id()),
        forall|k: int|
            0 <= k < idle_ids(channels, now).len() ==> idle_witness(
                channels,
                now,
                #[trigger] idle_ids(channels, now)[k],
            ),
    decreases channels.len(),
{
    if channels.len() > 0 {
        lemma_idle_eviction(channels.drop_last(), now);
        let prefix = channels.drop_last();
        let whole = idle_ids(channels, now);
        let front = idle_ids(prefix, now);
        assert forall|j: int|
            0 <= j < channels.len() && spec_is_idle(
                now,
                (#[trigger] channels[j]).spec_last_read_time_ms(),
                channels[j].spec_read_idle_timeout_ms(),
            ) implies whole.contains(channels[j].spec_id()) by {
            if j < channels.len() - 1 {
                assert(prefix[j] == channels[j]);
                assert(front.contains(channels[j].spec_id()));
                let k = choose|k: int| 0 <= k < front.len() && front[k] == channels[j].spec_id();
                assert(whole[k] == channels[j].spec_id());
            } else {
                assert(whole.last() == channels[j].spec_id());
            }
        }
        assert forall|k: int| 0 <= k < whole.len() implies idle_witness(
            channels,
            now,
            whole[k],
        ) by {
            if k < front.len() {
                assert(whole[k] == front[k]);
                assert(idle_witness(prefix, now, front[k]));
                let j = choose|j: int|
                    0 <= j < prefix.len() && (#[trigger] prefix[j]).spec_id() == front[k]
                        && spec_is_idle(
                        now,
                        prefix[j].spec_last_read_time_ms(),
                        prefix[j].spec_read_idle_timeout_ms(),
                    );
                assert(channels[j] == prefix[j]);
                assert(channels[j].spec_id() == whole[k]);
            } else {
                let j = channels.len() - 1;
                assert(channels[j].spec_id() == whole[k]);
            }
        }
    }
}

} // verus!
