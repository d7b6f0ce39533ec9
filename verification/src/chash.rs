//! The event loop's registries live in concurrent hash maps so that the
//! acceptor may insert while the loop's worker reads: the maps come from the
//! `chashmap` crate and are used through the trusted declarations below. The
//! two `*_contents` functions name what each map holds; every wrapper states
//! its effect on that name, as the crate's source shows it.

use vstd::prelude::*;

use chashmap::CHashMap;

use crate::channel::Channel;
use crate::pipeline::ChannelInboundHandlerCtxPipe;

verus! {

#[verifier::external_type_specification]
#[verifier::external_body]
#[verifier::reject_recursive_types(K)]
#[verifier::reject_recursive_types(V)]
pub struct ExCHashMap<K, V>(CHashMap<K, V>);

/// The entries of a channel registry.
pub uninterp spec fn channel_map_contents(m: CHashMap<usize, Channel>) -> Map<usize, Channel>;

/// The channel registry with no entries.
pub open spec fn no_channels() -> Map<usize, Channel> {
    Map::<usize, Channel>::empty()
}

/// The pipeline registry with no entries.
pub open spec fn no_pipes() -> Map<usize, ChannelInboundHandlerCtxPipe> {
    Map::<usize, ChannelInboundHandlerCtxPipe>::empty()
}

/// The entries of an inbound-pipeline registry.
pub uninterp spec fn pipe_map_contents(m: CHashMap<usize, ChannelInboundHandlerCtxPipe>) -> Map<
    usize,
    ChannelInboundHandlerCtxPipe,
>;

/// Relies on chashmap::CHashMap::new. Nothing is claimed of the fresh map:
/// `channel_map_clear` pins its contents down.
#[verifier::external_body]
pub(crate) fn channel_map_new() -> (r: CHashMap<usize, Channel>) {
    CHashMap::new()
}

/// Relies on chashmap::CHashMap::clear: drains the map, leaving it empty.
#[verifier::external_body]
pub(crate) fn channel_map_clear(m: &mut CHashMap<usize, Channel>)
    ensures
        channel_map_contents(*final(m)) == no_channels(),
{
    let _ = m.clear();
}

/// Relies on chashmap::CHashMap::insert_new: adds the entry; the key must be
/// absent (the crate checks that assumption in debug builds and corrupts the
/// table silently otherwise).
#[verifier::external_body]
pub(crate) fn channel_map_insert_new(m: &mut CHashMap<usize, Channel>, key: usize, val: Channel)
    requires
        !channel_map_contents(*old(m)).dom().contains(key),
    ensures
        channel_map_contents(*final(m)) == channel_map_contents(*old(m)).insert(key, val),
{
    m.insert_new(key, val);
}

/// Relies on chashmap::CHashMap::remove: takes the entry out and returns its
/// value, `None` when the key is absent.
#[verifier::external_body]
pub(crate) fn channel_map_remove(m: &mut CHashMap<usize, Channel>, key: usize) -> (r: Option<
    Channel,
>)
    ensures
        channel_map_contents(*final(m)) == channel_map_contents(*old(m)).remove(key),
        r == if channel_map_contents(*old(m)).dom().contains(key) {
            Some(channel_map_contents(*old(m))[key])
        } else {
            None::<Channel>
        },
{
    m.remove(&key)
}

/// Relies on chashmap::CHashMap::get: a copy of the value under the key,
/// `None` when the key is absent.
#[verifier::external_body]
pub(crate) fn channel_map_get(m: &CHashMap<usize, Channel>, key: usize) -> (r: Option<Channel>)
    ensures
        r == if channel_map_contents(*m).dom().contains(key) {
            Some(channel_map_contents(*m)[key])
        } else {
            None::<Channel>
        },
{
    match m.get(&key) {
        Some(guard) => Some(*guard),
        None => None,
    }
}

/// Relies on chashmap::CHashMap::contains_key.
#[verifier::external_body]
pub(crate) fn channel_map_contains(m: &CHashMap<usize, Channel>, key: usize) -> (r: bool)
    ensures
        r == channel_map_contents(*m).dom().contains(key),
{
    m.contains_key(&key)
}

/// Relies on chashmap::CHashMap::new. Nothing is claimed of the fresh map:
/// `pipe_map_clear` pins its contents down.
#[verifier::external_body]
pub(crate) fn pipe_map_new() -> (r: CHashMap<usize, ChannelInboundHandlerCtxPipe>) {
    CHashMap::new()
}

/// Relies on chashmap::CHashMap::clear: drains the map, leaving it empty.
#[verifier::external_body]
pub(crate) fn pipe_map_clear(m: &mut CHashMap<usize, ChannelInboundHandlerCtxPipe>)
    ensures
        pipe_map_contents(*final(m)) == no_pipes(),
{
    let _ = m.clear();
}

/// Relies on chashmap::CHashMap::insert_new: adds the entry; the key must be
/// absent (see `channel_map_insert_new`).
#[verifier::external_body]
pub(crate) fn pipe_map_insert_new(
    m: &mut CHashMap<usize, ChannelInboundHandlerCtxPipe>,
    key: usize,
    val: ChannelInboundHandlerCtxPipe,
)
    requires
        !pipe_map_contents(*old(m)).dom().contains(key),
    ensures
        pipe_map_contents(*final(m)) == pipe_map_contents(*old(m)).insert(key, val),
{
    m.insert_new(key, val);
}

/// Relies on chashmap::CHashMap::remove: takes the entry out and returns its
/// value, `None` when the key is absent.
#[verifier::external_body]
pub(crate) fn pipe_map_remove(
    m: &mut CHashMap<usize, ChannelInboundHandlerCtxPipe>,
    key: usize,
) -> (r: Option<ChannelInboundHandlerCtxPipe>)
    ensures
        pipe_map_contents(*final(m)) == pipe_map_contents(*old(m)).remove(key),
        r == if pipe_map_contents(*old(m)).dom().contains(key) {
            Some(pipe_map_contents(*old(m))[key])
        } else {
            None::<ChannelInboundHandlerCtxPipe>
        },
{
    m.remove(&key)
}

} // verus!
