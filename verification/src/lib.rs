//! Verified core of the r2-composer orchestrator: hashing, beacon
//! parsing, the device roster state machine, delivery adjudication,
//! event routing decisions and the small wire formats the orchestrator
//! speaks.

pub mod fnv;
pub mod text;
pub mod date;
pub mod beacon;
pub mod codec;
pub mod roster;
pub mod ledger;
pub mod coordinator;
pub mod web;
pub mod crypto;
pub mod usb;
pub mod flasher;
pub mod apiary;
pub mod bridge;
pub mod ota;
pub mod provision;
pub mod roster_sentant;
pub mod tg_state;
pub mod keyholder;
pub mod deploy;
pub mod handshake;
pub mod provision_sentant;
pub mod claude_code;
pub mod authoring;
pub mod beacon_tracker;
