//! Radio driver state machine: transitions, actions, checksum
//! discipline and the idempotent bring-up.

use aether::radio::{
    DriverState, Radio, RadioAction, RadioEvent, RadioState, CHANNEL_FREQUENCY_OFFSET,
    CRC_INITIAL, CRC_POLYNOMIAL, RING_CAP, TX_POWER_DBM, TX_RAMP_DOWN_MS,
};
use aether::ring::PACKET_SIZE;

fn raw_slot(payload: &[u8]) -> Vec<u8> {
    let mut slot = vec![0u8; PACKET_SIZE];
    slot[0] = (payload.len() + 2) as u8;
    slot[1..1 + payload.len()].copy_from_slice(payload);
    slot
}

#[test]
fn new_radio_sleeps_with_empty_rings() {
    let radio = Radio::new();
    assert_eq!(radio.driver, DriverState::Sleep);
    assert!(radio.can_send());
    assert!(!radio.can_recv());
}

#[test]
fn initialize_enters_reception() {
    let mut radio = Radio::new();
    let actions = radio.initialize().expect("bring-up from sleep");
    assert_eq!(radio.driver, DriverState::Rx);
    assert_eq!(
        actions,
        vec![
            RadioAction::InitClocks,
            RadioAction::DisableInterrupts,
            RadioAction::PowerCycle,
            RadioAction::SetIeee802154Mode,
            RadioAction::ConfigureCrc(CRC_POLYNOMIAL, CRC_INITIAL),
            RadioAction::ConfigureCca,
            RadioAction::SetFrequency(CHANNEL_FREQUENCY_OFFSET),
            RadioAction::SetTxPower(TX_POWER_DBM),
            RadioAction::ConfigureAddresses,
            RadioAction::EnableFastRampUp,
            RadioAction::ArmDmaRx(0),
            RadioAction::EnableInterrupts,
            RadioAction::TaskRxEn,
        ]
    );
    // The spec'd radio parameters, pinned by the contract.
    assert_eq!(CRC_POLYNOMIAL, 0x011021);
    assert_eq!(CRC_INITIAL, 0);
    assert_eq!(CHANNEL_FREQUENCY_OFFSET, 45);
    assert_eq!(TX_POWER_DBM, 4);
}

#[test]
fn initialize_twice_is_idempotent() {
    let mut radio = Radio::new();
    let first = radio.initialize().unwrap();
    let state_after_first = radio.driver;
    let second = radio.initialize().unwrap();
    assert_eq!(radio.driver, state_after_first);
    assert_eq!(radio.driver, DriverState::Rx);
    assert_eq!(first, second);
}

#[test]
fn try_send_queues_and_starts_cca() {
    let mut radio = Radio::new();
    radio.initialize().unwrap();
    let actions = radio.try_send(&[1, 2, 3, 4]).expect("ring has room");
    assert_eq!(radio.driver, DriverState::CcaTx);
    assert_eq!(actions[0], RadioAction::PowerOff);
    assert_eq!(actions[1], RadioAction::SleepMs(TX_RAMP_DOWN_MS));
    assert!(actions.contains(&RadioAction::ArmDmaTx(0)));
    assert!(!radio.can_recv());
}

#[test]
fn try_send_returns_none_when_ring_full() {
    let mut radio = Radio::new();
    for i in 0..RING_CAP {
        assert!(radio.try_send(&[i as u8]).is_some());
    }
    assert!(radio.try_send(&[0xff]).is_none());
}

#[test]
fn cca_idle_is_followed_only_by_transmit_rampup() {
    let mut radio = Radio::new();
    radio.try_send(&[5, 6]).unwrap();
    let actions = radio
        .handle_interrupt(RadioEvent::CcaIdle, RadioState::RxIdle, false)
        .expect("clear channel");
    // The whole action list is the transmit ramp-up: nothing happens
    // between the clear-channel verdict and the transmission attempt.
    assert_eq!(actions, vec![RadioAction::TaskTxEn]);
    assert_eq!(radio.driver, DriverState::Tx);
}

#[test]
fn cca_busy_defers_and_stays_on_cca_path() {
    let mut radio = Radio::new();
    radio.try_send(&[5, 6]).unwrap();
    let actions = radio
        .handle_interrupt(RadioEvent::CcaBusy, RadioState::RxIdle, false)
        .unwrap();
    assert!(actions.is_empty());
    assert_eq!(radio.driver, DriverState::CcaTx);
}

#[test]
fn crc_failure_drops_frame_silently() {
    let mut radio = Radio::new();
    radio.initialize().unwrap();
    radio.receive_buffer.fill_write_slot(&raw_slot(&[9, 9]));
    radio
        .handle_interrupt(RadioEvent::End, RadioState::RxIdle, false)
        .unwrap();
    assert!(!radio.can_recv());
}

#[test]
fn good_crc_commits_frame() {
    let mut radio = Radio::new();
    radio.initialize().unwrap();
    radio.receive_buffer.fill_write_slot(&raw_slot(&[7, 8, 9]));
    radio
        .handle_interrupt(RadioEvent::End, RadioState::RxIdle, true)
        .unwrap();
    assert!(radio.can_recv());
    assert_eq!(radio.try_recv().unwrap(), vec![7, 8, 9]);
}

#[test]
fn transmit_end_returns_to_reception() {
    let mut radio = Radio::new();
    radio.try_send(&[1]).unwrap();
    radio
        .handle_interrupt(RadioEvent::CcaIdle, RadioState::RxIdle, false)
        .unwrap();
    let actions = radio
        .handle_interrupt(RadioEvent::End, RadioState::TxIdle, false)
        .unwrap();
    assert_eq!(radio.driver, DriverState::Rx);
    assert!(actions.contains(&RadioAction::TaskRxEn));
    assert!(radio.transmit_buffer.is_empty());
}

#[test]
fn transmit_end_with_pending_frame_retransmits() {
    let mut radio = Radio::new();
    radio.try_send(&[1]).unwrap();
    radio.try_send(&[2]).unwrap();
    radio
        .handle_interrupt(RadioEvent::CcaIdle, RadioState::RxIdle, false)
        .unwrap();
    let actions = radio
        .handle_interrupt(RadioEvent::End, RadioState::TxIdle, false)
        .unwrap();
    // One frame left: straight back onto the clear-channel path.
    assert_eq!(radio.driver, DriverState::CcaTx);
    assert!(actions.contains(&RadioAction::ArmDmaTx(1)));
    assert_eq!(radio.transmit_buffer.len(), 1);
}

#[test]
fn frames_transmit_in_write_order() {
    let mut radio = Radio::new();
    radio.try_send(&[0xa]).unwrap();
    radio.try_send(&[0xb]).unwrap();
    // The armed DMA slot is the oldest frame.
    assert_eq!(radio.transmit_buffer.set_as_buffer(), 0);
    radio.transmit_buffer.sent_packet();
    assert_eq!(radio.transmit_buffer.set_as_buffer(), 1);
}

#[test]
fn unknown_ready_transition_is_rejected() {
    let mut radio = Radio::new();
    // Ready while asleep has no table entry.
    let r = radio.handle_interrupt(RadioEvent::Ready, RadioState::Disabled, false);
    assert!(r.is_err());
    assert_eq!(radio.driver, DriverState::Sleep);
}

#[test]
fn frame_start_is_bookkeeping_only() {
    let mut radio = Radio::new();
    radio.initialize().unwrap();
    let actions = radio
        .handle_interrupt(RadioEvent::FrameStart, RadioState::Rx, false)
        .unwrap();
    assert!(actions.is_empty());
    assert_eq!(radio.driver, DriverState::Rx);
}

#[test]
fn get_addr_derives_the_eui64() {
    let radio = Radio::new();
    let addr = radio.get_addr(0x1122_3344, 0x5566_aaaa);
    assert_eq!(addr.0, [0x11, 0x22, 0x33, 0x44, 0xff, 0xfe, 0x55, 0x66]);
}
