use camellia::error::CamelliaError;
use camellia::socket::af_xdp::{
    tx_frame_action, ScheduleMode, TxAction, XDPMode, XskSocketBuilder, XskStat,
};

fn builder() -> XskSocketBuilder<u32> {
    XskSocketBuilder::new().ifname("test-left").queue_index(0).with_umem(7)
}

#[test]
fn config_defaults() {
    let config = builder().construct_config().unwrap();
    assert_eq!(config.rx_size, 2048);
    assert_eq!(config.tx_size, 2048);
    assert_eq!(config.libxdp_flags, 0);
    assert_eq!(config.bind_flags, 0);
    assert_eq!(config.xdp_flags, 4);
}

#[test]
fn config_flags() {
    let config = builder()
        .no_default_prog()
        .enable_zero_copy()
        .enable_cooperate_schedule()
        .xdp_mode(XDPMode::Generic)
        .rx_queue_size(512)
        .tx_queue_size(256)
        .construct_config()
        .unwrap();
    assert_eq!(config.libxdp_flags, 1);
    assert_eq!(config.bind_flags, 12);
    assert_eq!(config.xdp_flags, 2);
    assert_eq!(config.rx_size, 512);
    assert_eq!(config.tx_size, 256);
    let hw = builder().xdp_mode(XDPMode::Hardware).enable_zero_copy().construct_config().unwrap();
    assert_eq!(hw.xdp_flags, 8);
    assert_eq!(hw.bind_flags, 4);
}

#[test]
fn config_errors_in_order() {
    let missing_all: XskSocketBuilder<u32> = XskSocketBuilder::new();
    match missing_all.construct_config() {
        Err(CamelliaError::InvalidArgument(msg)) => assert_eq!(msg, "UMem is not set"),
        _ => panic!("expected InvalidArgument"),
    }
    match XskSocketBuilder::new().with_umem(1u32).construct_config() {
        Err(CamelliaError::InvalidArgument(msg)) => assert_eq!(msg, "Interface name is not set"),
        _ => panic!("expected InvalidArgument"),
    }
    match XskSocketBuilder::new().with_umem(1u32).ifname("eth0").construct_config() {
        Err(CamelliaError::InvalidArgument(msg)) => assert_eq!(msg, "Queue index is not set"),
        _ => panic!("expected InvalidArgument"),
    }
}

#[test]
fn schedule_mode_priority() {
    assert_eq!(builder().schedule_mode(), ScheduleMode::Legacy);
    assert_eq!(builder().enable_cooperate_schedule().schedule_mode(), ScheduleMode::Cooperative);
    assert_eq!(
        builder().enable_cooperate_schedule().enable_busy_polling().schedule_mode(),
        ScheduleMode::BusyPolling
    );
}

#[test]
fn prepare_hands_out_the_parts() {
    let plan = builder().queue_index(3).enable_busy_polling().prepare().unwrap();
    assert_eq!(plan.ifname, "test-left");
    assert_eq!(plan.queue_index, 3);
    assert_eq!(plan.umem, 7);
    assert_eq!(plan.schedule_mode, ScheduleMode::BusyPolling);
    assert!(plan.busy_polling);
    assert_eq!(plan.config.rx_size, 2048);
    let missing: XskSocketBuilder<u32> = XskSocketBuilder::default();
    assert!(missing.prepare().is_err());
}

#[test]
fn rx_stat_accounting() {
    let mut stat = XskStat::default();
    assert!(!stat.record_rx_peek(ScheduleMode::Cooperative, 0, false));
    assert!(stat.record_rx_peek(ScheduleMode::Legacy, 0, true));
    assert!(stat.record_rx_peek(ScheduleMode::BusyPolling, 0, false));
    assert!(!stat.record_rx_peek(ScheduleMode::BusyPolling, 4, true));
    assert_eq!(stat.rx_wakeup, 2);
    assert_eq!(stat.rx_batch, 1);
    stat.record_rx_bytes(60);
    stat.record_rx_bytes(40);
    stat.record_rx_packets(2);
    assert_eq!(stat.rx_bytes, 100);
    assert_eq!(stat.rx_packets, 2);
}

#[test]
fn tx_stat_accounting() {
    let mut stat = XskStat::default();
    assert_eq!(stat.record_tx_reserve(3, 5), 3);
    assert_eq!(stat.record_tx_reserve(0, 5), 0);
    assert_eq!(stat.record_tx_reserve(8, 2), 2);
    assert_eq!(stat.tx_batch, 2);
    stat.record_tx_bytes(64);
    stat.record_tx_packets(3);
    assert!(stat.record_tx_submit(ScheduleMode::Legacy, false));
    assert!(stat.record_tx_submit(ScheduleMode::BusyPolling, false));
    assert!(!stat.record_tx_submit(ScheduleMode::Cooperative, false));
    assert!(stat.record_tx_submit(ScheduleMode::Cooperative, true));
    assert_eq!(stat.tx_wakeup, 3);
    assert_eq!(stat.tx_bytes, 64);
    assert_eq!(stat.tx_packets, 3);
}

#[test]
fn tx_frame_actions() {
    assert_eq!(tx_frame_action(0, 2, true), TxAction::Send);
    assert_eq!(tx_frame_action(1, 2, false), TxAction::Refuse);
    assert_eq!(tx_frame_action(2, 2, true), TxAction::Keep);
    assert_eq!(tx_frame_action(3, 2, false), TxAction::Keep);
    assert_eq!(tx_frame_action(0, 0, true), TxAction::Keep);
}
