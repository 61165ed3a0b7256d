//! The 802.15.4 radio driver modelled as a state machine.
//!
//! The driver owns the transmit and receive packet rings and its own
//! intent state.  Every operation is a pure transition: it consumes
//! the hardware state the peripheral reports and an event, updates the
//! driver state and the rings, and returns the ordered list of
//! register-level actions the caller must apply to the peripheral.
//! Illegal transitions are rejected at the table — the caller treats a
//! returned fault as fatal, as an unexpected hardware state indicates
//! a driver bug.

use vstd::prelude::*;
use crate::net::Ieee802154Address;
use crate::ring::{RingBufferRx, RingBufferTx, MAX_TX_PAYLOAD, is_pow2, slot_wf};
use vstd::arithmetic::power2::pow2;

verus! {

/// Number of slots in each of the driver's packet rings.
pub const RING_CAP: usize = 16;

/// How long the driver waits after powering the radio down before it
/// re-initializes for a transmission, in milliseconds.
pub const TX_RAMP_DOWN_MS: u64 = 40;

/// The 802.15.4 frame-checksum polynomial.
pub const CRC_POLYNOMIAL: u32 = 0x011021;

/// The initial value of the frame checksum.
pub const CRC_INITIAL: u32 = 0;

/// Channel frequency as the offset above 2400 MHz: 45 puts channel 20
/// at 2450 MHz.
pub const CHANNEL_FREQUENCY_OFFSET: u8 = 45;

/// Transmit power, in dBm.
pub const TX_POWER_DBM: u8 = 4;

/// The driver's intent.
#[derive(Clone, Copy, Debug, PartialEq, Eq, Structural)]
pub enum DriverState {
    /// Low power mode (disabled).
    Sleep,
    /// About to enter the sleep state.
    FallingAsleep,
    /// The receiver is enabled and receiving frames.
    Rx,
    /// A frame was received and the acknowledgement is being sent.
    TxAck,
    /// Performing clear-channel assessment followed by transmission.
    CcaTx,
    /// Transmitting a data frame.
    Tx,
    /// Receiving the acknowledgement for a transmitted frame.
    RxAck,
    /// Performing the energy-detection procedure.
    Ed,
    /// Performing the clear-channel-assessment procedure alone.
    Cca,
    /// Emitting a continuous carrier wave.
    ContinuousCarrier,
}

/// The state the radio peripheral reports.
#[derive(Clone, Copy, Debug, PartialEq, Eq, Structural)]
pub enum RadioState {
    Disabled,
    RxRu,
    RxIdle,
    Rx,
    RxDisable,
    TxRu,
    TxIdle,
    Tx,
    TxDisable,
}

/// One hardware event signalled through the radio interrupt.
#[derive(Clone, Copy, Debug, PartialEq, Eq, Structural)]
pub enum RadioEvent {
    /// Clear-channel assessment found the channel busy.
    CcaBusy,
    /// Clear-channel assessment found the channel idle.
    CcaIdle,
    /// The radio ramped up and is ready.
    Ready,
    /// A frame started arriving.
    FrameStart,
    /// A reception or transmission finished.
    End,
}

/// A register-level command the caller applies to the peripheral, in
/// the order returned.
#[derive(Clone, Copy, Debug, PartialEq, Eq, Structural)]
pub enum RadioAction {
    /// Start the external high-frequency crystal, wait for it, and
    /// confirm the clock source is the crystal — anything else is
    /// fatal, as the radio timing depends on it.
    InitClocks,
    /// Mask all radio interrupts.
    DisableInterrupts,
    /// Unmask the ready, cca, end and framestart interrupts.
    EnableInterrupts,
    /// Power the peripheral off.
    PowerOff,
    /// Power-cycle the peripheral and spin until it reports Disabled.
    PowerCycle,
    /// Program the assisted 802.15.4 mode: 250 kbit/s, an 8-bit
    /// physical-layer length field, a 32-bit all-zero preamble, the
    /// checksum counted in the frame length, frames capped at 127
    /// octets.
    SetIeee802154Mode,
    /// Program the frame checksum: this polynomial and initial value,
    /// skipping addresses per 802.15.4, two checksum bytes.
    ConfigureCrc(u32, u32),
    /// Assess a clear channel by carrier sense and energy detection
    /// combined.
    ConfigureCca,
    /// Tune to this offset above 2400 MHz.
    SetFrequency(u8),
    /// Set the transmit power, in dBm.
    SetTxPower(u8),
    /// Use the single transmit address and enable the one receive
    /// address.
    ConfigureAddresses,
    /// Enable fast ramp-up.
    EnableFastRampUp,
    /// Point the DMA engine at the transmit slot with this index.
    ArmDmaTx(usize),
    /// Point the DMA engine at the receive slot with this index.
    ArmDmaRx(usize),
    /// Trigger the start task.
    TaskStart,
    /// Trigger the clear-channel-assessment task.
    TaskCcaStart,
    /// Trigger the transmit ramp-up task.
    TaskTxEn,
    /// Trigger the receive ramp-up task.
    TaskRxEn,
    /// Wait this many milliseconds.
    SleepMs(u64),
}

/// A transition the table has no entry for.  Callers treat this as
/// fatal: it indicates a driver bug, not a recoverable condition.
#[derive(Clone, Copy, Debug, PartialEq, Eq, Structural)]
pub enum RadioFault {
    /// A ready event fired in a state that never ramps up.
    UnknownReadyTransition,
    /// An end event fired with the hardware in an unexpected state.
    UnknownEndState,
    /// Receive was started from a state it cannot start from.
    UnknownRecvStart,
    /// The transmit path was entered with no pending frame.
    NoPendingFrame,
}

/// Interface to the radio peripheral.
pub struct Radio {
    pub driver: DriverState,
    pub transmit_buffer: RingBufferTx,
    pub receive_buffer: RingBufferRx,
}

/// The fixed register-configuration prefix of `initialize`: clocks,
/// masked interrupts, a power cycle into a clean disabled state, then
/// the 802.15.4 mode, checksum, clear-channel assessment, channel,
/// power, addresses and ramp-up configuration the node runs with.
pub open spec fn config_actions() -> Seq<RadioAction> {
    seq![
        RadioAction::InitClocks,
        RadioAction::DisableInterrupts,
        RadioAction::PowerCycle,
        RadioAction::SetIeee802154Mode,
        RadioAction::ConfigureCrc(CRC_POLYNOMIAL, CRC_INITIAL),
        RadioAction::ConfigureCca,
        RadioAction::SetFrequency(CHANNEL_FREQUENCY_OFFSET),
        RadioAction::SetTxPower(TX_POWER_DBM),
        RadioAction::ConfigureAddresses,
        RadioAction::EnableFastRampUp,
    ]
}

impl Radio {
    /// Both rings well formed.
    pub open spec fn wf(self) -> bool {
        &&& self.transmit_buffer.wf()
        &&& self.receive_buffer.wf()
        &&& self.transmit_buffer.cap() == RING_CAP
        &&& self.receive_buffer.cap() == RING_CAP
    }

    /// The receive-ring slot index the DMA engine is pointed at while
    /// receiving.
    pub open spec fn rx_dma_slot(self) -> usize {
        (self.receive_buffer.write_counter() % self.receive_buffer.cap()) as usize
    }

    /// The transmit-ring slot index the DMA engine is pointed at while
    /// transmitting.
    pub open spec fn tx_dma_slot(self) -> usize {
        (self.transmit_buffer.read_counter() % self.transmit_buffer.cap()) as usize
    }

    /// The action suffix shared by every path that re-enters
    /// reception: arm the receive slot, unmask interrupts, ramp the
    /// receiver up.
    pub open spec fn enter_rx_actions(self) -> Seq<RadioAction> {
        seq![
            RadioAction::ArmDmaRx(self.rx_dma_slot()),
            RadioAction::EnableInterrupts,
            RadioAction::TaskRxEn,
        ]
    }

    /// The action suffix of the transmission path: arm the transmit
    /// slot, unmask interrupts, ramp the receiver up for clear-channel
    /// assessment.
    pub open spec fn enter_cca_actions(self) -> Seq<RadioAction> {
        seq![
            RadioAction::ArmDmaTx(self.tx_dma_slot()),
            RadioAction::EnableInterrupts,
            RadioAction::TaskRxEn,
        ]
    }

    /// What `start_recv` does, as a function of the pre-state and the
    /// reported hardware state: the new driver intent and the action
    /// list, or nothing where no entry of the table applies.
    pub open spec fn start_recv_result(self, hw: RadioState) -> Option<
        (DriverState, Seq<RadioAction>),
    > {
        match self.driver {
            DriverState::Sleep => Some((DriverState::Rx, self.enter_rx_actions())),
            DriverState::Rx => match hw {
                RadioState::RxIdle => Some(
                    (
                        DriverState::Rx,
                        seq![RadioAction::ArmDmaRx(self.rx_dma_slot()), RadioAction::TaskStart],
                    ),
                ),
                RadioState::TxIdle => Some(
                    (
                        DriverState::Rx,
                        seq![RadioAction::PowerOff] + config_actions() + self.enter_rx_actions(),
                    ),
                ),
                _ => None,
            },
            DriverState::CcaTx => if self.transmit_buffer.len_spec() > 0 {
                Some((DriverState::CcaTx, self.enter_cca_actions()))
            } else {
                None
            },
            _ => None,
        }
    }

    /// What `initialize` does: the register-configuration prefix, then
    /// reception from a clean power-cycled state (a transmission in
    /// flight stays on the clear-channel-assessment path).
    pub open spec fn initialize_result(self) -> Option<(DriverState, Seq<RadioAction>)> {
        let mid = if self.driver == DriverState::CcaTx {
            self
        } else {
            Radio { driver: DriverState::Sleep, ..self }
        };
        match mid.start_recv_result(RadioState::Disabled) {
            Some((d, a)) => Some((d, config_actions() + a)),
            None => None,
        }
    }

    /// What `start_transmit` does: power down, wait out the ramp-down,
    /// then initialize onto the clear-channel-assessment path.
    pub open spec fn start_transmit_result(self) -> Option<(DriverState, Seq<RadioAction>)> {
        let mid = Radio { driver: DriverState::CcaTx, ..self };
        match mid.initialize_result() {
            Some((d, a)) => Some(
                (d, seq![RadioAction::PowerOff, RadioAction::SleepMs(TX_RAMP_DOWN_MS)] + a),
            ),
            None => None,
        }
    }

    /// A fresh driver: asleep, with empty rings.
    pub fn new() -> (r: Radio)
        ensures
            r.wf(),
            r.driver == DriverState::Sleep,
            r.transmit_buffer.frames() =~= Seq::<Seq<u8>>::empty(),
            r.receive_buffer.frames() =~= Seq::<Seq<u8>>::empty(),
            r.transmit_buffer.read_counter() == 0,
            r.transmit_buffer.write_counter() == 0,
            r.receive_buffer.read_counter() == 0,
            r.receive_buffer.write_counter() == 0,
    {
        proof {
            vstd::arithmetic::power2::lemma2_to64();
            assert(is_pow2(RING_CAP));
        }
        Radio {
            driver: DriverState::Sleep,
            transmit_buffer: RingBufferTx::new(RING_CAP),
            receive_buffer: RingBufferRx::new(RING_CAP),
        }
    }

    /// A committed frame is waiting for the reader.
    pub fn can_recv(&self) -> (r: bool)
        requires
            self.wf(),
        ensures
            r == (self.receive_buffer.len_spec() > 0),
    {
        !self.receive_buffer.is_empty()
    }

    /// The transmit ring has room for another frame.
    pub fn can_send(&self) -> (r: bool)
        requires
            self.wf(),
        ensures
            r == (self.transmit_buffer.len_spec() < self.transmit_buffer.cap()),
    {
        !self.transmit_buffer.is_full()
    }

    /// Hand the oldest received frame to the caller, if any.
    pub fn try_recv(&mut self) -> (r: Option<Vec<u8>>)
        requires
            old(self).wf(),
            old(self).receive_buffer.read_counter() < usize::MAX,
        ensures
            final(self).wf(),
            final(self).driver == old(self).driver,
            final(self).transmit_buffer == old(self).transmit_buffer,
            old(self).receive_buffer.len_spec() == 0 ==> r is None && final(self).receive_buffer
                == old(self).receive_buffer,
            old(self).receive_buffer.len_spec() > 0 ==> {
                &&& r matches Some(frame) && frame@ == old(self).receive_buffer.frames()[0]
                &&& final(self).receive_buffer.frames() =~= old(self).receive_buffer.frames()
                    .subrange(1, old(self).receive_buffer.frames().len() as int)
            },
    {
        self.receive_buffer.read()
    }

    /// Power the radio down; the driver intends to sleep.
    pub fn turn_off(&mut self) -> (actions: Vec<RadioAction>)
        ensures
            final(self).driver == DriverState::Sleep,
            final(self).transmit_buffer == old(self).transmit_buffer,
            final(self).receive_buffer == old(self).receive_buffer,
            actions@ =~= seq![RadioAction::PowerOff],
    {
        self.driver = DriverState::Sleep;
        let mut actions: Vec<RadioAction> = Vec::new();
        actions.push(RadioAction::PowerOff);
        actions
    }

    /// Power-cycle the radio so it starts from a clean, disabled
    /// state.  The driver intent is untouched; the peripheral reports
    /// Disabled afterwards.
    pub fn turn_on(&self) -> (actions: Vec<RadioAction>)
        ensures
            actions@ =~= seq![RadioAction::PowerCycle],
    {
        let mut actions: Vec<RadioAction> = Vec::new();
        actions.push(RadioAction::PowerCycle);
        actions
    }

    /// Enter reception, from the states reception can start in.  The
    /// hardware state is consulted only when the driver is already
    /// receiving.
    pub fn start_recv(&mut self, hw: RadioState) -> (r: Result<Vec<RadioAction>, RadioFault>)
        requires
            old(self).wf(),
        ensures
            final(self).wf(),
            final(self).transmit_buffer == old(self).transmit_buffer,
            final(self).receive_buffer == old(self).receive_buffer,
            match old(self).start_recv_result(hw) {
                Some((d, a)) => final(self).driver == d && (r matches Ok(x) && x@ =~= a),
                None => r is Err && final(self).driver == old(self).driver,
            },
    {
        match self.driver {
            DriverState::Sleep => {
                self.driver = DriverState::Rx;
                let slot = self.receive_buffer.set_as_buffer();
                let mut actions: Vec<RadioAction> = Vec::new();
                actions.push(RadioAction::ArmDmaRx(slot));
                actions.push(RadioAction::EnableInterrupts);
                actions.push(RadioAction::TaskRxEn);
                Ok(actions)
            },
            DriverState::Rx => {
                match hw {
                    RadioState::RxIdle => {
                        let slot = self.receive_buffer.set_as_buffer();
                        let mut actions: Vec<RadioAction> = Vec::new();
                        actions.push(RadioAction::ArmDmaRx(slot));
                        actions.push(RadioAction::TaskStart);
                        Ok(actions)
                    },
                    RadioState::TxIdle => {
                        let mut actions: Vec<RadioAction> = Vec::new();
                        actions.push(RadioAction::PowerOff);
                        actions.push(RadioAction::InitClocks);
                        actions.push(RadioAction::DisableInterrupts);
                        actions.push(RadioAction::PowerCycle);
                        actions.push(RadioAction::SetIeee802154Mode);
                        actions.push(RadioAction::ConfigureCrc(CRC_POLYNOMIAL, CRC_INITIAL));
                        actions.push(RadioAction::ConfigureCca);
                        actions.push(RadioAction::SetFrequency(CHANNEL_FREQUENCY_OFFSET));
                        actions.push(RadioAction::SetTxPower(TX_POWER_DBM));
                        actions.push(RadioAction::ConfigureAddresses);
                        actions.push(RadioAction::EnableFastRampUp);
                        let slot = self.receive_buffer.set_as_buffer();
                        actions.push(RadioAction::ArmDmaRx(slot));
                        actions.push(RadioAction::EnableInterrupts);
                        actions.push(RadioAction::TaskRxEn);
                        Ok(actions)
                    },
                    _ => Err(RadioFault::UnknownRecvStart),
                }
            },
            DriverState::CcaTx => {
                if self.transmit_buffer.is_empty() {
                    Err(RadioFault::NoPendingFrame)
                } else {
                    let slot = self.transmit_buffer.set_as_buffer();
                    let mut actions: Vec<RadioAction> = Vec::new();
                    actions.push(RadioAction::ArmDmaTx(slot));
                    actions.push(RadioAction::EnableInterrupts);
                    actions.push(RadioAction::TaskRxEn);
                    Ok(actions)
                }
            },
            _ => Err(RadioFault::UnknownRecvStart),
        }
    }

    /// Bring the radio up from any quiescent state: clocks, a power
    /// cycle into Disabled, the full register configuration, then
    /// reception (or clear-channel assessment, when a transmission is
    /// in flight).  Calling it again finds the receiver listening and
    /// re-enters the same state with the same register configuration.
    pub fn initialize(&mut self) -> (r: Result<Vec<RadioAction>, RadioFault>)
        requires
            old(self).wf(),
        ensures
            final(self).wf(),
            final(self).transmit_buffer == old(self).transmit_buffer,
            final(self).receive_buffer == old(self).receive_buffer,
            match old(self).initialize_result() {
                Some((d, a)) => final(self).driver == d && (r matches Ok(x) && x@ =~= a),
                None => r is Err && final(self).driver == old(self).driver,
            },
    {
        let mut actions: Vec<RadioAction> = Vec::new();
        actions.push(RadioAction::InitClocks);
        actions.push(RadioAction::DisableInterrupts);
        actions.push(RadioAction::PowerCycle);
        actions.push(RadioAction::SetIeee802154Mode);
        actions.push(RadioAction::ConfigureCrc(CRC_POLYNOMIAL, CRC_INITIAL));
        actions.push(RadioAction::ConfigureCca);
        actions.push(RadioAction::SetFrequency(CHANNEL_FREQUENCY_OFFSET));
        actions.push(RadioAction::SetTxPower(TX_POWER_DBM));
        actions.push(RadioAction::ConfigureAddresses);
        actions.push(RadioAction::EnableFastRampUp);
        match self.driver {
            DriverState::CcaTx => {},
            _ => {
                self.driver = DriverState::Sleep;
            },
        }
        let tail = self.start_recv(RadioState::Disabled);
        match tail {
            Ok(tail_actions) => {
                let mut i: usize = 0;
                while i < tail_actions.len()
                    invariant
                        i <= tail_actions@.len(),
                        actions@ =~= config_actions() + tail_actions@.subrange(0, i as int),
                    decreases tail_actions@.len() - i,
                {
                    actions.push(tail_actions[i]);
                    i += 1;
                }
                proof {
                    assert(tail_actions@.subrange(0, tail_actions@.len() as int) =~= tail_actions@);
                }
                Ok(actions)
            },
            Err(fault) => Err(fault),
        }
    }

    /// Queue a frame and turn the driver around into the
    /// clear-channel-assessment-then-transmit path.
    pub fn start_transmit(&mut self) -> (r: Result<Vec<RadioAction>, RadioFault>)
        requires
            old(self).wf(),
        ensures
            final(self).wf(),
            final(self).transmit_buffer == old(self).transmit_buffer,
            final(self).receive_buffer == old(self).receive_buffer,
            match old(self).start_transmit_result() {
                Some((d, a)) => final(self).driver == d && (r matches Ok(x) && x@ =~= a),
                None => r is Err && final(self).driver == DriverState::CcaTx,
            },
    {
        let mut actions: Vec<RadioAction> = Vec::new();
        actions.push(RadioAction::PowerOff);
        self.driver = DriverState::CcaTx;
        actions.push(RadioAction::SleepMs(TX_RAMP_DOWN_MS));
        let tail = self.initialize();
        match tail {
            Ok(tail_actions) => {
                let mut i: usize = 0;
                while i < tail_actions.len()
                    invariant
                        i <= tail_actions@.len(),
                        actions@ =~= seq![
                            RadioAction::PowerOff,
                            RadioAction::SleepMs(TX_RAMP_DOWN_MS),
                        ] + tail_actions@.subrange(0, i as int),
                    decreases tail_actions@.len() - i,
                {
                    actions.push(tail_actions[i]);
                    i += 1;
                }
                proof {
                    assert(tail_actions@.subrange(0, tail_actions@.len() as int) =~= tail_actions@);
                }
                Ok(actions)
            },
            Err(fault) => Err(fault),
        }
    }

    /// This driver state with the armed receive slot committed.
    pub open spec fn with_rx_committed(self) -> Radio {
        Radio {
            receive_buffer: RingBufferRx {
                write_idx: (self.receive_buffer.write_idx + 1) as usize,
                ..self.receive_buffer
            },
            ..self
        }
    }

    /// This driver state with the oldest pending transmit frame
    /// consumed and the intent back at reception.
    pub open spec fn with_tx_popped(self) -> Radio {
        Radio {
            driver: DriverState::Rx,
            transmit_buffer: RingBufferTx {
                read_idx: (self.transmit_buffer.read_idx + 1) as usize,
                ..self.transmit_buffer
            },
            ..self
        }
    }

    /// Handle one event the interrupt relayed, given the state the
    /// peripheral reports and, for receptions, whether the hardware
    /// checksum matched.  The caller runs this once per signalled
    /// event, in hardware order, with radio interrupts masked around
    /// the whole batch.
    ///
    /// A failed checksum drops the frame silently: the ring does not
    /// advance.  Once the channel is assessed idle the only action is
    /// the transmit ramp-up, so a transmission attempt follows with
    /// nothing in between.
    pub fn handle_interrupt(&mut self, event: RadioEvent, hw: RadioState, crc_ok: bool) -> (r:
        Result<Vec<RadioAction>, RadioFault>)
        requires
            old(self).wf(),
            old(self).receive_buffer.write_counter() < usize::MAX,
            old(self).transmit_buffer.read_counter() < usize::MAX,
            event == RadioEvent::End && hw == RadioState::RxIdle && crc_ok ==> {
                &&& old(self).receive_buffer.len_spec() < old(self).receive_buffer.cap()
                &&& slot_wf(
                    old(self).receive_buffer.slot_at(old(self).receive_buffer.write_counter()),
                )
            },
        ensures
            final(self).wf(),
            match event {
                RadioEvent::CcaBusy => *final(self) == *old(self) && (r matches Ok(a) && a@
                    =~= Seq::<RadioAction>::empty()),
                RadioEvent::FrameStart => *final(self) == *old(self) && (r matches Ok(a) && a@
                    =~= Seq::<RadioAction>::empty()),
                RadioEvent::CcaIdle => {
                    &&& final(self).driver == DriverState::Tx
                    &&& final(self).transmit_buffer == old(self).transmit_buffer
                    &&& final(self).receive_buffer == old(self).receive_buffer
                    &&& r matches Ok(a) && a@ =~= seq![RadioAction::TaskTxEn]
                },
                RadioEvent::Ready => {
                    &&& final(self).transmit_buffer == old(self).transmit_buffer
                    &&& final(self).receive_buffer == old(self).receive_buffer
                    &&& final(self).driver == old(self).driver
                    &&& match old(self).driver {
                        DriverState::Rx => r matches Ok(a) && a@ =~= seq![RadioAction::TaskStart],
                        DriverState::Tx => if hw == RadioState::TxIdle {
                            r matches Ok(a) && a@ =~= seq![RadioAction::TaskStart]
                        } else {
                            r is Err
                        },
                        DriverState::CcaTx => r matches Ok(a) && a@ =~= seq![
                            RadioAction::TaskCcaStart,
                        ],
                        _ => r is Err,
                    }
                },
                RadioEvent::End => match hw {
                    RadioState::RxIdle => {
                        let mid = if crc_ok {
                            old(self).with_rx_committed()
                        } else {
                            *old(self)
                        };
                        &&& final(self).transmit_buffer == old(self).transmit_buffer
                        &&& final(self).receive_buffer == mid.receive_buffer
                        &&& (crc_ok ==> final(self).receive_buffer.frames() =~= old(
                            self,
                        ).receive_buffer.frames().push(
                            crate::ring::slot_frame(
                                old(self).receive_buffer.slot_at(
                                    old(self).receive_buffer.write_counter(),
                                ),
                            ),
                        ))
                        &&& match mid.start_recv_result(hw) {
                            Some((d, a)) => final(self).driver == d && (r matches Ok(x) && x@
                                =~= a),
                            None => r is Err && final(self).driver == old(self).driver,
                        }
                    },
                    RadioState::TxIdle => if old(self).transmit_buffer.len_spec() == 0 {
                        *final(self) == *old(self) && r is Err
                    } else {
                        let mid = old(self).with_tx_popped();
                        &&& final(self).receive_buffer == old(self).receive_buffer
                        &&& final(self).transmit_buffer == mid.transmit_buffer
                        &&& final(self).transmit_buffer.frames() =~= old(
                            self,
                        ).transmit_buffer.frames().subrange(
                            1,
                            old(self).transmit_buffer.frames().len() as int,
                        )
                        &&& if mid.transmit_buffer.len_spec() > 0 {
                            match mid.start_transmit_result() {
                                Some((d, a)) => final(self).driver == d && (r matches Ok(x) && x@
                                    =~= a),
                                None => r is Err,
                            }
                        } else {
                            match mid.start_recv_result(hw) {
                                Some((d, a)) => final(self).driver == d && (r matches Ok(x) && x@
                                    =~= a),
                                None => r is Err,
                            }
                        }
                    },
                    _ => *final(self) == *old(self) && r is Err,
                },
            },
    {
        match event {
            RadioEvent::CcaBusy => {
                // Deferred retry: the driver stays on the
                // clear-channel-assessment path.
                Ok(Vec::new())
            },
            RadioEvent::FrameStart => Ok(Vec::new()),
            RadioEvent::CcaIdle => {
                self.driver = DriverState::Tx;
                let mut actions: Vec<RadioAction> = Vec::new();
                actions.push(RadioAction::TaskTxEn);
                Ok(actions)
            },
            RadioEvent::Ready => {
                match self.driver {
                    DriverState::Rx => {
                        let mut actions: Vec<RadioAction> = Vec::new();
                        actions.push(RadioAction::TaskStart);
                        Ok(actions)
                    },
                    DriverState::Tx => {
                        if hw == RadioState::TxIdle {
                            let mut actions: Vec<RadioAction> = Vec::new();
                            actions.push(RadioAction::TaskStart);
                            Ok(actions)
                        } else {
                            Err(RadioFault::UnknownReadyTransition)
                        }
                    },
                    DriverState::CcaTx => {
                        let mut actions: Vec<RadioAction> = Vec::new();
                        actions.push(RadioAction::TaskCcaStart);
                        Ok(actions)
                    },
                    _ => Err(RadioFault::UnknownReadyTransition),
                }
            },
            RadioEvent::End => {
                match hw {
                    RadioState::RxIdle => {
                        if crc_ok {
                            self.receive_buffer.got_packet();
                        }
                        self.start_recv(hw)
                    },
                    RadioState::TxIdle => {
                        if self.transmit_buffer.is_empty() {
                            return Err(RadioFault::NoPendingFrame);
                        }
                        self.transmit_buffer.sent_packet();
                        self.driver = DriverState::Rx;
                        if !self.transmit_buffer.is_empty() {
                            self.start_transmit()
                        } else {
                            self.start_recv(hw)
                        }
                    },
                    _ => Err(RadioFault::UnknownEndState),
                }
            },
        }
    }

    /// The device's extended link-layer address, derived from the
    /// two device-identity words the caller read from the factory
    /// registers.
    pub fn get_addr(&self, word0: u32, word1: u32) -> (r: Ieee802154Address)
        ensures
            r@ =~= crate::net::eui64_bytes(word0, word1),
    {
        crate::net::eui64_from_device_id(word0, word1)
    }

    /// Try to queue a frame for transmission.  Never blocks: with the
    /// transmit ring full it returns None and changes nothing.
    pub fn try_send(&mut self, payload: &[u8]) -> (r: Option<Vec<RadioAction>>)
        requires
            old(self).wf(),
            old(self).transmit_buffer.write_counter() < usize::MAX,
            payload@.len() <= MAX_TX_PAYLOAD,
        ensures
            final(self).wf(),
            final(self).receive_buffer == old(self).receive_buffer,
            old(self).transmit_buffer.len_spec() == old(self).transmit_buffer.cap() ==> r is None
                && *final(self) == *old(self),
            old(self).transmit_buffer.len_spec() < old(self).transmit_buffer.cap() ==> {
                &&& final(self).transmit_buffer.frames() =~= old(self).transmit_buffer.frames()
                    .push(payload@)
                &&& final(self).driver == DriverState::CcaTx
                &&& r matches Some(a) && a@ =~= seq![
                    RadioAction::PowerOff,
                    RadioAction::SleepMs(TX_RAMP_DOWN_MS),
                ] + config_actions() + final(self).enter_cca_actions()
            },
    {
        if self.transmit_buffer.is_full() {
            return None;
        }
        self.transmit_buffer.write(payload);
        match self.start_transmit() {
            Ok(actions) => Some(actions),
            Err(_) => None,
        }
    }
}

/// Law: `initialize` is idempotent.  Outside the transmission path
/// (where a pending frame legitimately keeps the driver on
/// clear-channel assessment), a first call ends with the driver
/// receiving, and a second call from that state ends in the same
/// state and emits the same action list, so the register
/// configuration is identical.
pub proof fn lemma_initialize_idempotent(pre: Radio)
    requires
        pre.driver != DriverState::CcaTx,
    ensures
        ({
            let once = pre.initialize_result();
            let again = Radio { driver: DriverState::Rx, ..pre }.initialize_result();
            &&& once matches Some((d1, a1)) && d1 == DriverState::Rx
            &&& again matches Some((d2, a2)) && d2 == DriverState::Rx
            &&& once->Some_0.1 =~= again->Some_0.1
        }),
{
}

} // verus!
