//! The provisioning handshake's plain parts: the request the provision
//! sentant hands the handshake worker, its command and error codes, and
//! the length framing of the frames it exchanges over the L2CAP stream
//! (a little-endian `u16` length, then the frame).
//!
//! The handshake itself (JoinInvite, JoinRequest, JoinResponse) runs the
//! trust layer's protocol over a BLE link and is the host's work.

use vstd::prelude::*;

use crate::text::{dec_spec, push_dec, push_str, string_from_chars};

verus! {

/// A handshake to run against a device seen beaconing in provisioning mode.
#[derive(Debug, Clone)]
pub struct HandshakeRequest {
    /// Target BLE address, e.g. `"AA:BB:CC:DD:EE:FF"`.
    pub ble_addr: String,
    /// The name recorded for the device in the trust group.
    pub device_name: String,
    /// The slot the provision sentant bound the device to, if it could.
    pub slot_id_hint: Option<String>,
}

/// Command byte: start a handshake.
pub const CMD_START: u8 = 0x01;
/// Error: no request was waiting.
pub const ERR_NO_REQUEST: u8 = 0x01;
/// Error: no apiary is open.
pub const ERR_NO_APIARY: u8 = 0x02;
/// Error: the trust group could not be loaded or saved.
pub const ERR_TG_LOAD: u8 = 0x03;
/// Error: the BLE stack could not be brought up.
pub const ERR_BLE_INIT: u8 = 0x04;
/// Error: the device could not be reached.
pub const ERR_BLE_CONNECT: u8 = 0x05;
/// Error: the device broke the protocol.
pub const ERR_HANDSHAKE_PROTO: u8 = 0x06;
/// Error: the device did not answer in time.
pub const ERR_HANDSHAKE_TIMEOUT: u8 = 0x07;
/// Error: unknown command byte.
pub const ERR_UNKNOWN_COMMAND: u8 = 0xFE;
/// Error: the BLE backend is not available on this platform.
pub const ERR_NOT_LINUX: u8 = 0xFF;

/// The L2CAP PSM the devices listen on.
pub const R2_PSM: u16 = 0x00D2;
/// The largest inbound frame accepted.
pub const MAX_INBOUND_FRAME: u16 = 4096;

/// The two length bytes sent before an outbound frame, or why the frame
/// cannot be sent (longer than a `u16` can count).
pub fn outbound_frame_header(frame_len: usize) -> (r: Result<[u8; 2], String>)
    ensures
        frame_len > 0xFFFF ==> (r matches Err(m) && m@ == "frame too large: "@ + dec_spec(frame_len as nat)
            + " bytes"@),
        frame_len <= 0xFFFF ==> (r matches Ok(h) && h@ == seq![(frame_len % 256) as u8, (frame_len / 256) as u8]),
{
    if frame_len > 0xFFFF {
        let mut v: Vec<char> = Vec::new();
        push_str(&mut v, "frame too large: ");
        push_dec(&mut v, frame_len as u64);
        push_str(&mut v, " bytes");
        assert(v@ =~= "frame too large: "@ + dec_spec(frame_len as nat) + " bytes"@);
        return Err(string_from_chars(&v));
    }
    let lo: u8 = (frame_len % 256) as u8;
    let hi: u8 = (frame_len / 256) as u8;
    let h: [u8; 2] = [lo, hi];
    assert(h@ =~= seq![(frame_len % 256) as u8, (frame_len / 256) as u8]);
    Ok(h)
}

/// The length of an inbound frame from its two little-endian length
/// bytes, or why it is refused (empty, or over [`MAX_INBOUND_FRAME`]).
pub fn inbound_frame_len(len_bytes: [u8; 2]) -> (r: Result<usize, String>)
    ensures
        ({
            let n = len_bytes@[0] as nat + 256 * (len_bytes@[1] as nat);
            &&& (n == 0 || n > MAX_INBOUND_FRAME) ==> (r matches Err(m) && m@ == "invalid inbound length: "@
                + dec_spec(n))
            &&& (0 < n <= MAX_INBOUND_FRAME) ==> r == Ok::<usize, String>(n as usize)
        }),
{
    let n: u32 = len_bytes[0] as u32 + 256 * (len_bytes[1] as u32);
    if n == 0 || n > MAX_INBOUND_FRAME as u32 {
        let mut v: Vec<char> = Vec::new();
        push_str(&mut v, "invalid inbound length: ");
        push_dec(&mut v, n as u64);
        assert(v@ =~= "invalid inbound length: "@ + dec_spec(n as nat));
        return Err(string_from_chars(&v));
    }
    Ok(n as usize)
}

} // verus!
