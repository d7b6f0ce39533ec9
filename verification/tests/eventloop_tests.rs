use retty::bootstrap::incr_id;
use retty::bootstrap::pick_worker;
use retty::bootstrap::Bootstrap;
use retty::channel::Channel;
use retty::eventloop::EventLoop;
use retty::eventloop::EventLoopGroup;
use retty::idle::is_idle;
use retty::idle::read_idle_timeout_error;
use retty::idle::sweep_idle;
use retty::errors::ErrorCategory;
use retty::lifecycle::ConnDriver;
use retty::lifecycle::FiredEvent;
use retty::lifecycle::ReadOutcome;
use retty::pipeline::build_inbound_ctx_pipe;
use retty::pipeline::ChannelInboundHandlerPipe;

fn fresh_pipe() -> retty::pipeline::ChannelInboundHandlerCtxPipe {
    let mut registered = ChannelInboundHandlerPipe::new();
    registered.add_last(String::from("Echo"));
    build_inbound_ctx_pipe(&registered)
}

#[test]
fn attach_registers_and_fires_active() {
    let mut lp = EventLoop::new();
    let mut driver = ConnDriver::new();
    let ch = Channel::create(3, 1000, 0);
    assert!(!lp.contains(3));
    let ev = lp.attach(3, ch, fresh_pipe(), &mut driver);
    assert!(matches!(ev, FiredEvent::Active));
    assert!(lp.contains(3));
    let stored = lp.channel_of(3).unwrap();
    assert_eq!(stored.id(), 3);
    assert!(!stored.is_closed());
}

#[test]
fn data_becomes_one_read_event_and_stamps_the_channel() {
    let mut lp = EventLoop::new();
    let mut driver = ConnDriver::new();
    let _ = lp.attach(4, Channel::create(4, 1000, 0), fresh_pipe(), &mut driver);
    let evs = lp.handle_readable(4, ReadOutcome::Data(vec![1, 2]), &mut driver);
    assert_eq!(evs.len(), 1);
    assert!(matches!(&evs[0], FiredEvent::Read(b) if b == &vec![1, 2]));
    assert!(lp.contains(4));
    assert!(lp.channel_of(4).unwrap().last_read_time_ms() > 0);
}

#[test]
fn eof_fires_inactive_and_evicts_both_entries() {
    let mut lp = EventLoop::new();
    let mut driver = ConnDriver::new();
    let _ = lp.attach(5, Channel::create(5, 1000, 0), fresh_pipe(), &mut driver);
    let evs = lp.handle_readable(5, ReadOutcome::Eof, &mut driver);
    assert_eq!(evs.len(), 1);
    assert!(matches!(evs[0], FiredEvent::Inactive));
    assert!(!lp.contains(5));
    assert!(lp.channel_of(5).is_none());
}

#[test]
fn a_spurious_id_produces_no_event() {
    let mut lp = EventLoop::new();
    let mut driver = ConnDriver::new();
    let _ = lp.attach(6, Channel::create(6, 1000, 0), fresh_pipe(), &mut driver);
    let evs = lp.handle_readable(99, ReadOutcome::Data(vec![1]), &mut driver);
    assert!(evs.is_empty());
    assert!(lp.contains(6));
}

#[test]
fn a_handler_close_turns_the_next_poll_into_inactive() {
    let mut lp = EventLoop::new();
    let mut driver = ConnDriver::new();
    let _ = lp.attach(7, Channel::create(7, 1000, 0), fresh_pipe(), &mut driver);
    lp.close_channel(7);
    assert!(lp.channel_of(7).unwrap().is_closed());
    let evs = lp.handle_readable(7, ReadOutcome::Data(vec![1]), &mut driver);
    assert_eq!(evs.len(), 1);
    assert!(matches!(evs[0], FiredEvent::Inactive));
    assert!(!lp.contains(7));
}

#[test]
fn each_connection_gets_its_own_pipeline_entry() {
    let mut lp = EventLoop::new();
    let mut d1 = ConnDriver::new();
    let mut d2 = ConnDriver::new();
    let _ = lp.attach(1, Channel::create(1, 1000, 0), fresh_pipe(), &mut d1);
    let _ = lp.attach(2, Channel::create(2, 1000, 0), fresh_pipe(), &mut d2);
    assert!(lp.contains(1) && lp.contains(2));
    let _ = lp.handle_readable(1, ReadOutcome::Eof, &mut d1);
    assert!(!lp.contains(1));
    assert!(lp.contains(2));
}

#[test]
fn shutdown_stops_the_loop() {
    let mut lp = EventLoop::new();
    assert!(!lp.is_stopped());
    lp.shutdown();
    assert!(lp.is_stopped());
}

#[test]
fn round_robin_cycles_strictly() {
    let mut group = EventLoopGroup::new(3);
    assert_eq!(group.next(), 0);
    assert_eq!(group.next(), 1);
    assert_eq!(group.next(), 2);
    assert_eq!(group.next(), 0);
    assert_eq!(group.next(), 1);
    assert_eq!(group.len(), 3);
}

#[test]
fn shutdown_all_stops_every_loop() {
    let mut group = EventLoopGroup::new_default_event_loop_group(2);
    group.shutdown_all();
    for i in 0..group.len() {
        assert!(group.loop_at(i).is_stopped());
    }
}

#[test]
fn connection_ids_wrap_at_the_top() {
    assert_eq!(incr_id(1), 2);
    assert_eq!(incr_id(usize::MAX), 0);
    assert_eq!(pick_worker(7, 2), 1);
    assert_eq!(pick_worker(8, 2), 0);
}

#[test]
fn bootstrap_defaults_and_options() {
    let mut b = Bootstrap::new_server_bootstrap();
    assert_eq!(b.host, "0.0.0.0");
    assert_eq!(b.port, 1511);
    assert!(b.worker_count.is_none());
    assert!(!b.stopped);
    b.worker_group(2)
        .opt_ttl_ms(100)
        .opt_linger_ms(200)
        .opt_nodelay(true)
        .opt_keep_alive_ms(300)
        .opt_recv_buf_size(4096)
        .opt_send_buf_size(8192)
        .opt_read_idle_timeout_ms(1000)
        .bind("127.0.0.1", 9000);
    assert_eq!(b.worker_count, Some(2));
    assert_eq!(b.opts.ttl_ms, Some(100));
    assert_eq!(b.opts.linger_ms, Some(200));
    assert_eq!(b.opts.nodelay, Some(true));
    assert_eq!(b.opts.keep_alive_ms, Some(300));
    assert_eq!(b.opts.recv_buf_size, Some(4096));
    assert_eq!(b.opts.send_buf_size, Some(8192));
    assert_eq!(b.opts.read_idle_timeout_ms, Some(1000));
    assert_eq!(b.host, "127.0.0.1");
    assert_eq!(b.port, 9000);
    b.terminate();
    assert!(b.stopped);
}

#[test]
fn idleness_needs_strictly_more_than_the_timeout() {
    assert!(!is_idle(1000, 500, 500));
    assert!(is_idle(1001, 500, 500));
    assert!(!is_idle(400, 500, 500));
}

#[test]
fn a_sweep_picks_exactly_the_idle_connections_in_order() {
    let channels = vec![
        Channel::create(1, 100, 0),
        Channel::create(2, 1000, 850),
        Channel::create(3, 100, 890),
    ];
    // now = 1000: id 1 idle (1000 > 0 + 100), id 2 fresh (1000 <= 850 + 1000),
    // id 3 idle (1000 > 890 + 100).
    let evict = sweep_idle(&channels, 1000);
    assert_eq!(evict, vec![1, 3]);
}

#[test]
fn the_eviction_error_is_a_read_idle_timeout() {
    let err = read_idle_timeout_error();
    assert_eq!(err.kind, ErrorCategory::TimedOut);
    assert_eq!(err.message, "ReadIdleTimeout");
}
