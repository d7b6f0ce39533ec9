use retty::bytebuf::ByteBuf;
use retty::channel::Channel;
use retty::pipeline::build_inbound_ctx_pipe;
use retty::pipeline::build_outbound_ctx_pipe;
use retty::pipeline::ChannelInboundHandlerCtxPipe;
use retty::pipeline::ChannelInboundHandlerPipe;
use retty::pipeline::ChannelOutboundHandlerCtxPipe;
use retty::pipeline::ChannelOutboundHandlerPipe;
use retty::pipeline::HeadHandler;
use retty::pipeline::Message;
use retty::pipeline::TailHandler;

fn inbound_walk(pipe: &ChannelInboundHandlerCtxPipe) -> Vec<String> {
    let mut ids: Vec<String> = Vec::new();
    let mut at: Option<usize> = Some(0);
    while let Some(i) = at {
        ids.push(pipe.ctxs[i].id.clone());
        at = pipe.next_of(i);
    }
    ids
}

fn outbound_walk(pipe: &ChannelOutboundHandlerCtxPipe) -> Vec<String> {
    let mut ids: Vec<String> = Vec::new();
    let mut at: Option<usize> = Some(0);
    while let Some(i) = at {
        ids.push(pipe.ctxs[i].id.clone());
        at = pipe.next_of(i);
    }
    ids
}

#[test]
fn inbound_events_visit_handlers_in_registration_order() {
    let mut registered = ChannelInboundHandlerPipe::new();
    registered.add_last(String::from("A"));
    registered.add_last(String::from("B"));
    registered.add_last(String::from("C"));
    let pipe = build_inbound_ctx_pipe(&registered);
    assert_eq!(inbound_walk(&pipe), vec!["HEAD", "A", "B", "C"]);
}

#[test]
fn outbound_writes_visit_handlers_in_reverse_order_then_the_tail() {
    let mut registered = ChannelOutboundHandlerPipe::new();
    registered.add_last(String::from("X"));
    registered.add_last(String::from("Y"));
    registered.add_last(String::from("Z"));
    let pipe = build_outbound_ctx_pipe(&registered);
    assert_eq!(outbound_walk(&pipe), vec!["Z", "Y", "X", "TAIL"]);
}

#[test]
fn empty_registrations_still_give_head_and_tail() {
    let inbound = build_inbound_ctx_pipe(&ChannelInboundHandlerPipe::new());
    assert_eq!(inbound_walk(&inbound), vec!["HEAD"]);
    let outbound = build_outbound_ctx_pipe(&ChannelOutboundHandlerPipe::new());
    assert_eq!(outbound_walk(&outbound), vec!["TAIL"]);
}

#[test]
fn add_first_prepends_and_add_last_appends() {
    let mut registered = ChannelInboundHandlerPipe::new();
    registered.add_last(String::from("B"));
    registered.add_first(String::from("A"));
    registered.add_last(String::from("C"));
    assert_eq!(registered.handlers, vec!["A", "B", "C"]);
    let mut out = ChannelOutboundHandlerPipe::new();
    out.add_last(String::from("Y"));
    out.add_first(String::from("X"));
    assert_eq!(out.handlers, vec!["X", "Y"]);
}

#[test]
fn the_head_stamps_the_last_read_time() {
    let head = HeadHandler::new();
    assert_eq!(head.id(), "HEAD");
    let mut ch = Channel::create(1, 1000, 0);
    head.channel_active(&mut ch);
    let stamped = ch.last_read_time_ms();
    assert!(stamped > 0);
    head.channel_read(&mut ch);
    assert!(ch.last_read_time_ms() >= stamped);
}

#[test]
fn the_tail_writes_buffers_and_drops_the_rest() {
    let tail = TailHandler::new();
    assert_eq!(tail.id(), "TAIL");
    let ch = Channel::create(1, 1000, 0);
    let msg = Message::Buf(ByteBuf::new_from(&vec![4, 5]));
    assert_eq!(tail.channel_write(&ch, &msg), Some(vec![4, 5]));
    assert_eq!(tail.channel_write(&ch, &Message::Opaque), None);
    let mut closed = Channel::create(2, 1000, 0);
    closed.close();
    assert_eq!(tail.channel_write(&closed, &msg), None);
}
