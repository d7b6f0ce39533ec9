use retty::bytebuf::ByteBuf;
use retty::channel::Channel;
use retty::channel::ChannelOptions;
use retty::errors::ErrorCategory;
use retty::errors::RettyErrorKind;
use retty::lifecycle::ConnDriver;
use retty::lifecycle::FiredEvent;
use retty::lifecycle::ReadOutcome;

#[test]
fn a_fresh_channel_is_open() {
    let ch = Channel::create(7, 1000, 50);
    assert_eq!(ch.id(), 7);
    assert!(!ch.is_closed());
    assert_eq!(ch.last_read_time_ms(), 50);
    assert_eq!(ch.read_idle_timeout_ms(), 1000);
}

#[test]
fn close_is_final_and_drops_writes() {
    let mut ch = Channel::create(1, 1000, 0);
    let buf = ByteBuf::new_from(&vec![1, 2, 3]);
    assert_eq!(ch.write_bytebuf(&buf), Some(vec![1, 2, 3]));
    ch.close();
    assert!(ch.is_closed());
    assert_eq!(ch.write_bytebuf(&buf), None);
    ch.close();
    assert!(ch.is_closed());
}

#[test]
fn last_read_time_never_decreases() {
    let mut ch = Channel::create(1, 1000, 100);
    ch.set_last_read_time(300);
    assert_eq!(ch.last_read_time_ms(), 300);
    ch.set_last_read_time(200);
    assert_eq!(ch.last_read_time_ms(), 300);
    ch.set_last_read_time(301);
    assert_eq!(ch.last_read_time_ms(), 301);
}

#[test]
fn channel_options_hold_numbers_and_flags() {
    let n = ChannelOptions::NUMBER(65535);
    let b = ChannelOptions::BOOL(true);
    assert!(matches!(n, ChannelOptions::NUMBER(65535)));
    assert!(matches!(b, ChannelOptions::BOOL(true)));
}

#[test]
fn error_kind_keeps_category_and_message() {
    let err = RettyErrorKind::new(ErrorCategory::ConnectionReset, String::from("peer reset"));
    assert_eq!(err.kind, ErrorCategory::ConnectionReset);
    assert_eq!(err.message, "peer reset");
    assert_eq!(err.describe(), "ConnectionReset , peer reset");
}

fn kinds(evs: &[FiredEvent]) -> Vec<&'static str> {
    evs.iter()
        .map(|ev| match ev {
            FiredEvent::Active => "active",
            FiredEvent::Read(_) => "read",
            FiredEvent::Exception(_) => "exception",
            FiredEvent::Inactive => "inactive",
        })
        .collect()
}

#[test]
fn a_connection_sees_active_reads_exceptions_then_inactive() {
    let mut driver = ConnDriver::new();
    let mut ch = Channel::create(1, 1000, 0);
    let mut seen: Vec<FiredEvent> = Vec::new();
    seen.push(driver.activate());
    seen.extend(driver.poll_step(&mut ch, ReadOutcome::Data(vec![1])));
    seen.extend(driver.poll_step(&mut ch, ReadOutcome::WouldBlock));
    seen.extend(driver.poll_step(
        &mut ch,
        ReadOutcome::Failed(RettyErrorKind::new(
            ErrorCategory::ConnectionReset,
            String::from("reset"),
        )),
    ));
    seen.extend(driver.poll_step(&mut ch, ReadOutcome::Data(vec![2])));
    seen.extend(driver.poll_step(&mut ch, ReadOutcome::Eof));
    assert_eq!(
        kinds(&seen),
        vec!["active", "read", "exception", "read", "inactive"]
    );
    assert!(ch.is_closed());
}

#[test]
fn a_closed_channel_fires_inactive_not_read() {
    let mut driver = ConnDriver::new();
    let mut ch = Channel::create(1, 1000, 0);
    let _ = driver.activate();
    ch.close();
    let evs = driver.poll_step(&mut ch, ReadOutcome::Data(vec![1, 2, 3]));
    assert_eq!(kinds(&evs), vec!["inactive"]);
}

#[test]
fn eof_closes_the_channel_and_ends_the_trace() {
    let mut driver = ConnDriver::new();
    let mut ch = Channel::create(9, 1000, 0);
    let _ = driver.activate();
    let evs = driver.poll_step(&mut ch, ReadOutcome::Eof);
    assert_eq!(kinds(&evs), vec!["inactive"]);
    assert!(ch.is_closed());
}
