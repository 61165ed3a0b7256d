//! Verified core of a 6LoWPAN/IEEE 802.15.4 sensor-node network stack.
//!
//! The crate models the wireless networking core of a small firmware
//! stack: the 802.15.4 radio driver's ring buffers and state machine,
//! the interface task that multiplexes UDP, TCP and DNS sockets among
//! client tasks, 6LoWPAN fragmentation and reassembly, an mDNS
//! responder, and the thin adapters an MQTT client sits on.  Hardware
//! registers, kernel IPC and the radio itself live outside; every
//! decision this crate makes about them is stated in a contract.

pub mod buffer;
pub mod gpio;
pub mod hdlc;
pub mod mdns;
pub mod mqtt;
pub mod neighbor;
pub mod net;
pub mod radio;
pub mod ring;
pub mod server;
pub mod sixlowpan;
pub mod socket;
