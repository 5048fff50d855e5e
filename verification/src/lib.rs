//! A point-to-multipoint serial bus transport for small controllers.
//!
//! One master and many slaves share a multidrop link that carries
//! length-prefixed binary frames with a 16-bit integrity checksum. Each
//! received word arrives with an out-of-band marker that says whether it
//! opens a new frame's address field. The library reconstructs frames from
//! that word stream one unit at a time, decides whether a frame is meant for
//! this node, and answers with a small fixed-size acknowledgement.

use vstd::prelude::*;
use vstd::slice::slice_index_get;
use vstd::slice::slice_to_vec;

use crate::buffer::buf_as_slice;
use crate::buffer::buf_bytes;
use crate::buffer::buf_clear;
use crate::buffer::buf_new;
use crate::buffer::buf_push;
use crate::buffer::raw_new;
use crate::buffer::raw_push;
use crate::buffer::raw_words;
use crate::buffer::DataBuffer;
use crate::buffer::RawDataFrame;
use crate::checksum::calculate_crc;
use crate::checksum::crc16_usb_of;
use crate::checksum::crc_valid;
use crate::parser::parse_dataframe;
use crate::parser::parse_dataframe_noclone;
use crate::parser::spec_parse_frame;

pub mod buffer;
pub mod checksum;
pub mod laws;
pub mod parser;

verus! {

/// An 8-bit node, group or broadcast address.
pub type Address = u8;

/// The reserved address that every node accepts.
pub const BROADCAST_ADDRESS: Address = 0xff;

/// The fixed address of the bus controller.
pub const MASTER_ADDRESS: Address = 0x1;

/// The largest payload `send` accepts; longer payloads are rejected.
pub const MAX_APPDATA_LEN: usize = 254;

/// An owned frame payload.
pub type AppData = Vec<u8>;

/// The fields of one frame, as mathematical values: the destination
/// address, the payload bytes and the 16-bit checksum carried with them.
pub struct FrameModel {
    pub address: Address,
    pub payload: Seq<u8>,
    pub checksum: u16,
}

impl FrameModel {
    /// A frame is well-formed when the checksum it carries is the
    /// CRC-16/USB digest of its payload.
    pub open spec fn checksum_matches(self) -> bool {
        self.checksum == crc16_usb_of(self.payload)
    }
}

/// The low eight bits of a received or transmitted word: the data byte
/// accompanying the out-of-band address marker.
pub open spec fn spec_low_byte(w: u16) -> u8 {
    (w & 0xff) as u8
}

/// The wire bytes of a frame: address in the top nibble of the first byte,
/// then the length byte, the payload, and the checksum little-endian.
pub open spec fn spec_frame_bytes(address: Address, payload: Seq<u8>, crc: u16) -> Seq<u8> {
    seq![(address << 4) as u8, payload.len() as u8] + payload + seq![
        (crc & 0xff) as u8,
        (crc >> 8) as u8,
    ]
}

/// The serialized word sequence of a frame: the first word carries the
/// address byte with the address marker set, the rest carry plain bytes.
pub open spec fn spec_frame_words(address: Address, payload: Seq<u8>, crc: u16) -> Seq<u16> {
    seq![((address as u16) << 4) | 0x100, payload.len() as u16] + payload.map(
        |j: int, b: u8| b as u16,
    ) + seq![(crc & 0xff) as u16, (crc >> 8) as u16]
}

/// The data bytes a word sequence carries, marker bits dropped.
pub open spec fn spec_word_bytes(words: Seq<u16>) -> Seq<u8> {
    words.map(|j: int, w: u16| spec_low_byte(w))
}

/// An owned, decoded frame: destination address, payload, and the checksum
/// that arrived with it. The checksum is not pre-filtered: callers must
/// check it against the payload before acting on the data.
#[derive(Debug)]
pub struct DataFrame {
    address: Address,
    data: AppData,
    crc: u16,
}

impl View for DataFrame {
    type V = FrameModel;

    closed spec fn view(&self) -> FrameModel {
        FrameModel { address: self.address, payload: self.data@, checksum: self.crc }
    }
}

impl DataFrame {
    /// Builds a frame around `app_data`, computing the checksum over it.
    fn new(address: Address, app_data: &[u8]) -> (r: DataFrame)
        ensures
            r@ == (FrameModel {
                address,
                payload: app_data@,
                checksum: crc16_usb_of(app_data@),
            }),
    {
        DataFrame { address, data: slice_to_vec(app_data), crc: calculate_crc(app_data) }
    }

    /// Assembles a frame from already-decoded fields.
    pub(crate) fn from_parts(address: Address, data: AppData, crc: u16) -> (r: DataFrame)
        ensures
            r@ == (FrameModel { address, payload: data@, checksum: crc }),
    {
        DataFrame { address, data, crc }
    }

    /// Whether the frame is addressed to every node on the bus.
    pub fn is_broadcast(&self) -> (r: bool)
        ensures
            r == (self@.address == BROADCAST_ADDRESS),
    {
        self.address == BROADCAST_ADDRESS
    }

    /// The payload bytes.
    pub fn app_data(&self) -> (r: &AppData)
        ensures
            r@ == self@.payload,
    {
        &self.data
    }

    /// The destination address.
    pub fn address(&self) -> (r: Address)
        ensures
            r == self@.address,
    {
        self.address
    }

    /// The checksum that arrived with the frame.
    pub fn crc(&self) -> (r: u16)
        ensures
            r == self@.checksum,
    {
        self.crc
    }

    /// Serializes the frame to its outbound word sequence.
    fn to_bytes(self) -> (r: RawDataFrame)
        requires
            self@.payload.len() < MAX_APPDATA_LEN,
        ensures
            raw_words(r) == spec_frame_words(self@.address, self@.payload, self@.checksum),
    {
        let ghost target = spec_frame_words(self@.address, self@.payload, self@.checksum);
        let mut ret: RawDataFrame = raw_new();
        let _ = raw_push(&mut ret, ((self.address as u16) << 4) | 0x100);
        let _ = raw_push(&mut ret, self.data.len() as u16);
        proof {
            assert(raw_words(ret) =~= target.take(2));
        }
        let mut idx: usize = 0;
        while idx < self.data.len()
            invariant
                idx <= self.data.len(),
                self.data.len() < MAX_APPDATA_LEN,
                target == spec_frame_words(self@.address, self@.payload, self@.checksum),
                self@.payload == self.data@,
                raw_words(ret) == target.take(2 + idx as int),
            decreases self.data.len() - idx,
        {
            let _ = raw_push(&mut ret, self.data[idx] as u16);
            proof {
                assert(raw_words(ret) =~= target.take(2 + (idx + 1) as int));
            }
            idx += 1;
        }
        let _ = raw_push(&mut ret, self.crc & 0xff);
        let _ = raw_push(&mut ret, self.crc >> 8);
        proof {
            assert(raw_words(ret) =~= target);
        }
        ret
    }
}

/// A fixed-size acknowledgement code sent back to the master.
pub type Response = [u8; 4];

/// The positive acknowledgement: a complete frame arrived and its checksum
/// matches its payload.
pub const RESPONSE_ACK: Response = [0x11, 0x00, 0x00, 0x00];

/// The negative acknowledgement: the buffer overran or the checksum does
/// not match.
pub const RESPONSE_NACK: Response = [0x12, 0x00, 0x00, 0x00];

/// The bytes of the positive acknowledgement.
pub open spec fn spec_ack() -> Seq<u8> {
    seq![0x11u8, 0x00u8, 0x00u8, 0x00u8]
}

/// The bytes of the negative acknowledgement.
pub open spec fn spec_nack() -> Seq<u8> {
    seq![0x12u8, 0x00u8, 0x00u8, 0x00u8]
}

/// Whether a received word carries the out-of-band address marker.
pub open spec fn spec_is_address_word(w: u16) -> bool {
    w & 0x100 != 0
}

/// The address value a received word carries: the top nibble of its data
/// byte.
pub open spec fn spec_word_addr(w: u16) -> Address {
    ((w & 0xff) >> 4) as u8
}

/// The address-match rule, bitmask-subset semantics rather than equality: a
/// received address matches when it carries every bit of this node's own
/// address (group addressing), or when it is exactly the broadcast
/// constant.
pub open spec fn spec_addr_match(own: Address, received: Address) -> bool {
    own & received == own || received == BROADCAST_ADDRESS
}

/// What one ingested word provokes from a node.
pub enum Reply {
    Ack,
    Nack,
    Silent,
}

/// The accumulation buffer after one word is ingested. A matching address
/// word restarts the buffer with that byte; a foreign address word empties
/// it; a data word is appended while a frame is in progress and room
/// remains, and empties the buffer when it overruns.
pub open spec fn spec_ingest_buf(own: Address, buf: Seq<u8>, w: u16) -> Seq<u8> {
    if spec_is_address_word(w) {
        if spec_addr_match(own, spec_word_addr(w)) {
            seq![spec_low_byte(w)]
        } else {
            Seq::<u8>::empty()
        }
    } else if buf.len() == 0 {
        buf
    } else if buf.len() >= 512 {
        Seq::<u8>::empty()
    } else {
        buf.push(spec_low_byte(w))
    }
}

/// The reply one ingested word provokes. Only a slave with a frame in
/// progress replies: a buffer overrun is refused at once, and the word that
/// completes a frame is acknowledged according to its checksum. An
/// incomplete frame stays silent.
pub open spec fn spec_ingest_reply(slave: bool, own: Address, buf: Seq<u8>, w: u16) -> Reply {
    if spec_is_address_word(w) || buf.len() == 0 || !slave {
        Reply::Silent
    } else if buf.len() >= 512 {
        Reply::Nack
    } else {
        match spec_parse_frame(buf.push(spec_low_byte(w))) {
            Some(pf) => if pf.0.checksum_matches() {
                Reply::Ack
            } else {
                Reply::Nack
            },
            None => Reply::Silent,
        }
    }
}

/// Whether a node drives the bus or answers on it.
enum Device {
    Master,
    Slave,
}

/// The stateful core of one node: its role, its own address, and the
/// bounded buffer in which incoming frame bytes accumulate.
pub struct Transport {
    device: Device,
    address: Address,
    data_buf: DataBuffer,
}

impl Transport {
    /// Whether this node answers with acknowledgements: a slave does, the
    /// master never does.
    pub closed spec fn spec_is_slave(self) -> bool {
        self.device is Slave
    }

    /// This node's own address.
    pub closed spec fn spec_address(self) -> Address {
        self.address
    }

    /// The bytes accumulated so far toward a frame.
    pub closed spec fn spec_buf(self) -> Seq<u8> {
        buf_bytes(self.data_buf)
    }

    /// The accumulation buffer never outgrows its capacity.
    pub closed spec fn wf(self) -> bool {
        self.spec_buf().len() <= 512
    }

    /// A slave node with the given address and an empty buffer.
    pub fn new_slave(address: Address) -> (r: Transport)
        ensures
            r.wf(),
            r.spec_is_slave(),
            r.spec_address() == address,
            r.spec_buf() == Seq::<u8>::empty(),
    {
        Transport { device: Device::Slave, address, data_buf: buf_new() }
    }

    /// The bus controller: it uses the reserved master address and never
    /// acknowledges.
    pub fn new_master() -> (r: Transport)
        ensures
            r.wf(),
            !r.spec_is_slave(),
            r.spec_address() == MASTER_ADDRESS,
            r.spec_buf() == Seq::<u8>::empty(),
    {
        Transport { device: Device::Master, address: MASTER_ADDRESS, data_buf: buf_new() }
    }

    /// Whether a received word carries the address marker.
    pub fn is_address_byte(&self, byte: u16) -> (r: bool)
        ensures
            r == spec_is_address_word(byte),
    {
        byte & 0x100 != 0
    }

    /// Whether a received address is meant for this node.
    fn address_match(&self, address: Address) -> (r: bool)
        ensures
            r == spec_addr_match(self.spec_address(), address),
    {
        self.address & address == self.address || address == BROADCAST_ADDRESS
    }

    /// The address value carried in a received word.
    fn parse_address(&self, byte: u16) -> (r: Address)
        ensures
            r == spec_word_addr(byte),
    {
        ((byte & 0xff) >> 4) as u8
    }

    /// Consumes one word of hardware input: the fast path, called as soon
    /// as a word is received, never allocating. Returns the response that
    /// must be sent straight back to the master, if this word provoked one.
    pub fn ingest(&mut self, byte: u16) -> (r: Option<Response>)
        requires
            old(self).wf(),
        ensures
            final(self).wf(),
            final(self).spec_is_slave() == old(self).spec_is_slave(),
            final(self).spec_address() == old(self).spec_address(),
            final(self).spec_buf() == spec_ingest_buf(
                old(self).spec_address(),
                old(self).spec_buf(),
                byte,
            ),
            ({
                let reply = spec_ingest_reply(
                    old(self).spec_is_slave(),
                    old(self).spec_address(),
                    old(self).spec_buf(),
                    byte,
                );
                match r {
                    None => reply == Reply::Silent,
                    Some(resp) => (reply == Reply::Ack && resp@ == spec_ack()) || (reply
                        == Reply::Nack && resp@ == spec_nack()),
                }
            }),
    {
        if self.is_address_byte(byte) {
            let address = self.parse_address(byte);
            if self.address_match(address) {
                buf_clear(&mut self.data_buf);
                let pushed = buf_push(&mut self.data_buf, (byte & 0xff) as u8);
                if pushed.is_err() {
                    // The designed recovery trigger: cannot fire right
                    // after a clear, but the protocol retries once,
                    // discarding anything previously buffered.
                    buf_clear(&mut self.data_buf);
                    let _ = buf_push(&mut self.data_buf, (byte & 0xff) as u8);
                }
            } else {
                // A frame for somebody else is about to follow: drop any
                // partial state from an unrelated frame.
                buf_clear(&mut self.data_buf);
            }
            None
        } else {
            let in_progress = buf_as_slice(&self.data_buf).len() > 0;
            if !in_progress {
                return None;
            }
            let pushed = buf_push(&mut self.data_buf, (byte & 0xff) as u8);
            if pushed.is_err() {
                // Capacity exceeded mid-frame: recover locally by clearing,
                // and refuse the frame if this node is the one replying.
                buf_clear(&mut self.data_buf);
                match self.device {
                    Device::Slave => {
                        return Some(RESPONSE_NACK);
                    },
                    Device::Master => {
                        return None;
                    },
                }
            }
            match self.device {
                Device::Slave => {
                    let s = buf_as_slice(&self.data_buf);
                    match parse_dataframe_noclone(s) {
                        Ok((_used, (_address, data, crc_value))) => {
                            if crc_valid(data, &crc_value).is_ok() {
                                Some(RESPONSE_ACK)
                            } else {
                                Some(RESPONSE_NACK)
                            }
                        },
                        Err(_) => None,
                    }
                },
                Device::Master => None,
            }
        }
    }

    /// Attempts a full owned decode of the accumulated bytes: the slow
    /// path, called periodically, and the only one that may copy. On
    /// success the buffer keeps exactly the undecoded remainder, so
    /// back-to-back frames survive; on failure it is left untouched.
    pub fn parse_data_buffer(&mut self) -> (r: Option<DataFrame>)
        requires
            old(self).wf(),
        ensures
            final(self).wf(),
            final(self).spec_is_slave() == old(self).spec_is_slave(),
            final(self).spec_address() == old(self).spec_address(),
            match spec_parse_frame(old(self).spec_buf()) {
                Some(pf) => (r matches Some(f) && f@ == pf.0 && final(self).spec_buf() == old(
                    self,
                ).spec_buf().subrange(pf.1, old(self).spec_buf().len() as int)),
                None => r is None && final(self).spec_buf() == old(self).spec_buf(),
            },
    {
        let parsed = parse_dataframe(buf_as_slice(&self.data_buf));
        match parsed {
            Ok((used, frame)) => {
                let mut rest: DataBuffer = buf_new();
                let total = buf_as_slice(&self.data_buf).len();
                let mut i: usize = used;
                while i < total
                    invariant
                        used <= i <= total,
                        total == buf_bytes(self.data_buf).len(),
                        total <= 512,
                        buf_bytes(rest) == buf_bytes(self.data_buf).subrange(
                            used as int,
                            i as int,
                        ),
                    decreases total - i,
                {
                    let b = *slice_index_get(buf_as_slice(&self.data_buf), i);
                    let _ = buf_push(&mut rest, b);
                    i += 1;
                }
                self.data_buf = rest;
                Some(frame)
            },
            Err(_) => None,
        }
    }

    /// Validates a payload and serializes it into the word sequence to
    /// hand to the hardware, addressed from this node. A payload of
    /// `MAX_APPDATA_LEN` bytes or more is rejected with the offending
    /// length and produces no words at all.
    pub fn send(&self, app_data: &[u8]) -> (r: Result<RawDataFrame, usize>)
        ensures
            app_data@.len() >= MAX_APPDATA_LEN ==> r == Err::<RawDataFrame, usize>(
                app_data@.len() as usize,
            ),
            app_data@.len() < MAX_APPDATA_LEN ==> (r matches Ok(raw) && raw_words(raw)
                == spec_frame_words(self.spec_address(), app_data@, crc16_usb_of(app_data@))),
    {
        if app_data.len() >= MAX_APPDATA_LEN {
            Err(app_data.len())
        } else {
            Ok(DataFrame::new(self.address, app_data).to_bytes())
        }
    }
}

} // verus!
