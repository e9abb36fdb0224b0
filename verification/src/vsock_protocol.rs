//! The virtio-vsock packet codec: a 36-byte little-endian header followed by
//! at most 4096 payload bytes.

use vstd::prelude::*;
use vstd::slice::slice_subrange;
use vstd::slice::slice_to_vec;
use crate::wire::{get_le16, get_le32, le16, le16_bytes, le32, le32_bytes, put_le16, put_le32};
use crate::wire::{lemma_le16_round_trip, lemma_le32_round_trip, lemma_le16_range, lemma_le32_range};

verus! {

pub const VSOCK_TYPE_STREAM: u16 = 1;

pub const VSOCK_OP_REQUEST: u16 = 1;

pub const VSOCK_OP_RESPONSE: u16 = 2;

pub const VSOCK_OP_RST: u16 = 3;

pub const VSOCK_OP_SHUTDOWN: u16 = 4;

pub const VSOCK_OP_RW: u16 = 5;

pub const VSOCK_OP_CREDIT_UPDATE: u16 = 6;

pub const VSOCK_OP_CREDIT_REQUEST: u16 = 7;

/// Bytes taken by a header on the wire.
pub const HDR_SIZE: usize = 36;

/// Largest payload a packet may declare.
pub const MAX_PAYLOAD_LEN: u32 = 4096;

/// The header for a virtio vsock packet.
#[derive(Debug, Copy, Clone, PartialEq, Eq, Structural)]
pub struct VirtioVsockHdr {
    pub src_cid: u32,
    pub dst_cid: u32,
    pub src_port: u32,
    pub dst_port: u32,
    pub len: u32,
    pub type_: u16,
    pub op: u16,
    pub flags: u32,
    pub buf_alloc: u32,
    pub fwd_cnt: u32,
}

/// Why the codec turned a byte string down.
#[derive(Debug, Copy, Clone, PartialEq, Eq, Structural)]
pub enum ProtocolError {
    /// Fewer than 36 bytes: no header.
    ShortHeader,
    /// The header declares more than 4096 payload bytes.
    PayloadTooLarge,
    /// Fewer bytes follow the header than it declares.
    ShortPayload,
}

/// Why a packet could not be read from a source.
#[derive(Debug, Copy, Clone, PartialEq, Eq, Structural)]
pub enum ReadError {
    /// The source failed, or handed out another number of bytes than asked.
    Source,
    /// The bytes read are no packet.
    Protocol(ProtocolError),
}

/// Something packets can be read from, chunk by chunk.
///
/// An implementation promises what its `reliable` says. One that says
/// nothing promises nothing, and a reader goes by what it returns.
pub trait PacketSource {
    /// Whether this source is a plain run of bytes, `remaining`, that reads
    /// take from the front, failing only where too few are left.
    open spec fn reliable(&self) -> bool {
        false
    }

    /// The bytes that a reliable source has yet to hand out.
    open spec fn remaining(&self) -> Seq<u8> {
        Seq::<u8>::empty()
    }

    /// The next `len` bytes, or `None` where they cannot be had.
    fn read_exact(&mut self, len: usize) -> (chunk: Option<Vec<u8>>)
        ensures
            old(self).reliable() ==> final(self).reliable() && if len <= old(
                self,
            ).remaining().len() {
                chunk is Some && chunk.unwrap()@ == old(self).remaining().subrange(0, len as int)
                    && final(self).remaining() == old(self).remaining().skip(len as int)
            } else {
                chunk is None
            },
    ;
}

/// What reading one packet from a reliable source that holds `remaining`
/// gives. A source that ends within the header or the payload fails the
/// read; a header that declares more than 4096 bytes is refused.
pub open spec fn read_packet(remaining: Seq<u8>) -> Result<PacketView, ReadError> {
    match decode(remaining) {
        Ok(p) => Ok(p),
        Err(ProtocolError::PayloadTooLarge) => Err(
            ReadError::Protocol(ProtocolError::PayloadTooLarge),
        ),
        Err(_) => Err(ReadError::Source),
    }
}

/// A source over bytes held in memory.
pub struct ByteSource {
    bytes: Vec<u8>,
    at: usize,
}

impl ByteSource {
    /// Whether the position lies within the bytes.
    #[verifier::type_invariant]
    spec fn in_range(self) -> bool {
        self.at <= self.bytes@.len()
    }

    /// A source that hands out `bytes` from the start.
    pub fn new(bytes: Vec<u8>) -> (source: Self)
        ensures
            source.remaining() == bytes@,
    {
        let source = ByteSource { bytes, at: 0 };
        assert(source.bytes@.skip(0) =~= source.bytes@);
        source
    }

    /// How many bytes are left.
    pub fn len(&self) -> (len: usize)
        ensures
            len == self.remaining().len(),
    {
        proof {
            use_type_invariant(self);
        }
        self.bytes.len() - self.at
    }
}

impl PacketSource for ByteSource {
    open spec fn reliable(&self) -> bool {
        true
    }

    closed spec fn remaining(&self) -> Seq<u8> {
        self.bytes@.skip(self.at as int)
    }

    fn read_exact(&mut self, len: usize) -> (chunk: Option<Vec<u8>>) {
        proof {
            use_type_invariant(&*self);
        }
        if self.bytes.len() - self.at < len {
            return None;
        }
        let chunk = slice_to_vec(slice_subrange(self.bytes.as_slice(), self.at, self.at + len));
        proof {
            assert(chunk@ =~= self.remaining().subrange(0, len as int));
            assert(self.bytes@.skip(self.at + len) =~= self.remaining().skip(len as int));
        }
        self.at = self.at + len;
        Some(chunk)
    }
}

/// A vsock packet, with a header and a payload.
#[derive(Debug, Clone, PartialEq, Eq)]
pub struct Packet {
    hdr: VirtioVsockHdr,
    payload: Vec<u8>,
}

/// What a packet is: its header and its payload bytes.
pub struct PacketView {
    pub hdr: VirtioVsockHdr,
    pub payload: Seq<u8>,
}

impl PacketView {
    /// The header declares the payload's length, and that is at most 4096.
    pub open spec fn wf(self) -> bool {
        self.payload.len() == self.hdr.len && self.hdr.len <= MAX_PAYLOAD_LEN
    }
}

impl View for Packet {
    type V = PacketView;

    closed spec fn view(&self) -> PacketView {
        PacketView { hdr: self.hdr, payload: self.payload@ }
    }
}

/// The 36 bytes of a header: its ten fields in declaration order,
/// little-endian.
pub open spec fn encode_header(h: VirtioVsockHdr) -> Seq<u8> {
    le32_bytes(h.src_cid) + le32_bytes(h.dst_cid) + le32_bytes(h.src_port) + le32_bytes(
        h.dst_port,
    ) + le32_bytes(h.len) + le16_bytes(h.type_) + le16_bytes(h.op) + le32_bytes(h.flags)
        + le32_bytes(h.buf_alloc) + le32_bytes(h.fwd_cnt)
}

/// The header held by the first 36 bytes of `s`.
pub open spec fn decode_header(s: Seq<u8>) -> VirtioVsockHdr
    recommends
        s.len() >= HDR_SIZE,
{
    VirtioVsockHdr {
        src_cid: le32(s.subrange(0, 4)) as u32,
        dst_cid: le32(s.subrange(4, 8)) as u32,
        src_port: le32(s.subrange(8, 12)) as u32,
        dst_port: le32(s.subrange(12, 16)) as u32,
        len: le32(s.subrange(16, 20)) as u32,
        type_: le16(s.subrange(20, 22)) as u16,
        op: le16(s.subrange(22, 24)) as u16,
        flags: le32(s.subrange(24, 28)) as u32,
        buf_alloc: le32(s.subrange(28, 32)) as u32,
        fwd_cnt: le32(s.subrange(32, 36)) as u32,
    }
}

/// A packet on the wire: header, then payload.
pub open spec fn encode(p: PacketView) -> Seq<u8> {
    encode_header(p.hdr) + p.payload
}

/// The payload length that a byte string declares: its `len` field, once it
/// is long enough to hold one.
pub open spec fn declared_len(bytes: Seq<u8>) -> int {
    if bytes.len() >= 20 {
        le32(bytes.subrange(16, 20))
    } else {
        0
    }
}

/// What a byte string decodes to. Bytes behind the declared payload are not
/// looked at.
pub open spec fn decode(bytes: Seq<u8>) -> Result<PacketView, ProtocolError> {
    if bytes.len() < HDR_SIZE {
        Err(ProtocolError::ShortHeader)
    } else if declared_len(bytes) > MAX_PAYLOAD_LEN {
        Err(ProtocolError::PayloadTooLarge)
    } else if bytes.len() < HDR_SIZE + declared_len(bytes) {
        Err(ProtocolError::ShortPayload)
    } else {
        Ok(
            PacketView {
                hdr: decode_header(bytes.subrange(0, HDR_SIZE as int)),
                payload: bytes.subrange(HDR_SIZE as int, HDR_SIZE + declared_len(bytes)),
            },
        )
    }
}

/// A header takes 36 bytes, and reading them back gives the header.
pub proof fn lemma_header_round_trip(h: VirtioVsockHdr)
    ensures
        encode_header(h).len() == HDR_SIZE,
        decode_header(encode_header(h)) == h,
{
    let s = encode_header(h);
    lemma_le32_round_trip(h.src_cid);
    lemma_le32_round_trip(h.dst_cid);
    lemma_le32_round_trip(h.src_port);
    lemma_le32_round_trip(h.dst_port);
    lemma_le32_round_trip(h.len);
    lemma_le16_round_trip(h.type_);
    lemma_le16_round_trip(h.op);
    lemma_le32_round_trip(h.flags);
    lemma_le32_round_trip(h.buf_alloc);
    lemma_le32_round_trip(h.fwd_cnt);
    assert(s.subrange(0, 4) =~= le32_bytes(h.src_cid));
    assert(s.subrange(4, 8) =~= le32_bytes(h.dst_cid));
    assert(s.subrange(8, 12) =~= le32_bytes(h.src_port));
    assert(s.subrange(12, 16) =~= le32_bytes(h.dst_port));
    assert(s.subrange(16, 20) =~= le32_bytes(h.len));
    assert(s.subrange(20, 22) =~= le16_bytes(h.type_));
    assert(s.subrange(22, 24) =~= le16_bytes(h.op));
    assert(s.subrange(24, 28) =~= le32_bytes(h.flags));
    assert(s.subrange(28, 32) =~= le32_bytes(h.buf_alloc));
    assert(s.subrange(32, 36) =~= le32_bytes(h.fwd_cnt));
}

/// Any 36 bytes are the encoding of the header they decode to.
pub proof fn lemma_header_bytes_round_trip(s: Seq<u8>)
    requires
        s.len() == HDR_SIZE,
    ensures
        encode_header(decode_header(s)) == s,
{
    lemma_le32_range(s.subrange(0, 4));
    lemma_le32_range(s.subrange(4, 8));
    lemma_le32_range(s.subrange(8, 12));
    lemma_le32_range(s.subrange(12, 16));
    lemma_le32_range(s.subrange(16, 20));
    lemma_le16_range(s.subrange(20, 22));
    lemma_le16_range(s.subrange(22, 24));
    lemma_le32_range(s.subrange(24, 28));
    lemma_le32_range(s.subrange(28, 32));
    lemma_le32_range(s.subrange(32, 36));
    assert(encode_header(decode_header(s)) =~= s);
}

/// Codec round trip: a packet whose header declares its payload's length,
/// at most 4096, decodes from its own encoding.
pub proof fn lemma_decode_encode(p: PacketView)
    requires
        p.wf(),
    ensures
        decode(encode(p)) == Ok::<PacketView, ProtocolError>(p),
{
    let bytes = encode(p);
    lemma_header_round_trip(p.hdr);
    assert(bytes.subrange(0, HDR_SIZE as int) =~= encode_header(p.hdr));
    assert(bytes.subrange(16, 20) =~= encode_header(p.hdr).subrange(16, 20));
    assert(encode_header(p.hdr).subrange(16, 20) =~= le32_bytes(p.hdr.len));
    lemma_le32_round_trip(p.hdr.len);
    assert(declared_len(bytes) == p.hdr.len);
    assert(bytes.subrange(HDR_SIZE as int, HDR_SIZE + p.hdr.len) =~= p.payload);
}

/// Codec rejection: a byte string shorter than its header and declared
/// payload, or one that declares more than 4096 bytes, does not decode.
pub proof fn lemma_decode_rejects(bytes: Seq<u8>)
    requires
        bytes.len() < HDR_SIZE + declared_len(bytes) || declared_len(bytes) > MAX_PAYLOAD_LEN,
    ensures
        decode(bytes) is Err,
{
    if bytes.len() >= 20 {
        lemma_le32_range(bytes.subrange(16, 20));
    }
}

/// What decodes is well formed, and encodes to the bytes that were read.
pub proof fn lemma_encode_decode(bytes: Seq<u8>)
    requires
        decode(bytes) is Ok,
    ensures
        decode(bytes).unwrap().wf(),
        encode(decode(bytes).unwrap()) == bytes.subrange(0, HDR_SIZE + declared_len(bytes)),
{
    lemma_le32_range(bytes.subrange(16, 20));
    let head = bytes.subrange(0, HDR_SIZE as int);
    lemma_header_bytes_round_trip(head);
    assert(head.subrange(16, 20) =~= bytes.subrange(16, 20));
    assert(encode(decode(bytes).unwrap()) =~= bytes.subrange(0, HDR_SIZE + declared_len(bytes)));
}

/// The header of a reply to `request`: source and destination swapped (cid
/// and port), the type kept, `op` and `len` as given, `buf_alloc` copied,
/// `flags` and `fwd_cnt` zero.
pub open spec fn reply_header(request: VirtioVsockHdr, op: u16, len: u32) -> VirtioVsockHdr {
    VirtioVsockHdr {
        src_cid: request.dst_cid,
        dst_cid: request.src_cid,
        src_port: request.dst_port,
        dst_port: request.src_port,
        len,
        type_: request.type_,
        op,
        flags: 0,
        buf_alloc: request.buf_alloc,
        fwd_cnt: 0,
    }
}

/// Builds the header of a reply to `request_hdr`.
pub fn create_reply_header(request_hdr: &VirtioVsockHdr, op: u16, len: u32) -> (hdr:
    VirtioVsockHdr)
    ensures
        hdr == reply_header(*request_hdr, op, len),
{
    VirtioVsockHdr {
        src_cid: request_hdr.dst_cid,
        dst_cid: request_hdr.src_cid,
        src_port: request_hdr.dst_port,
        dst_port: request_hdr.src_port,
        len,
        type_: request_hdr.type_,
        op,
        flags: 0,
        buf_alloc: request_hdr.buf_alloc,
        fwd_cnt: 0,
    }
}

impl VirtioVsockHdr {
    /// The header's 36 bytes on the wire.
    pub fn to_bytes(&self) -> (bytes: Vec<u8>)
        ensures
            bytes@ == encode_header(*self),
            bytes@.len() == HDR_SIZE,
    {
        let mut bytes: Vec<u8> = Vec::with_capacity(HDR_SIZE);
        put_le32(&mut bytes, self.src_cid);
        put_le32(&mut bytes, self.dst_cid);
        put_le32(&mut bytes, self.src_port);
        put_le32(&mut bytes, self.dst_port);
        put_le32(&mut bytes, self.len);
        put_le16(&mut bytes, self.type_);
        put_le16(&mut bytes, self.op);
        put_le32(&mut bytes, self.flags);
        put_le32(&mut bytes, self.buf_alloc);
        put_le32(&mut bytes, self.fwd_cnt);
        assert(bytes@ =~= encode_header(*self));
        bytes
    }

    /// Reads a header from the first 36 bytes of `bytes`; `None` where there
    /// are fewer.
    pub fn from_bytes(bytes: &[u8]) -> (hdr: Option<Self>)
        ensures
            hdr == if bytes@.len() >= HDR_SIZE {
                Some(decode_header(bytes@))
            } else {
                None
            },
    {
        if bytes.len() < HDR_SIZE {
            return None;
        }
        Some(
            VirtioVsockHdr {
                src_cid: get_le32(bytes, 0),
                dst_cid: get_le32(bytes, 4),
                src_port: get_le32(bytes, 8),
                dst_port: get_le32(bytes, 12),
                len: get_le32(bytes, 16),
                type_: get_le16(bytes, 20),
                op: get_le16(bytes, 22),
                flags: get_le32(bytes, 24),
                buf_alloc: get_le32(bytes, 28),
                fwd_cnt: get_le32(bytes, 32),
            },
        )
    }
}

impl Packet {
    /// Creates a new packet with the given header and payload. Nothing is
    /// checked: a caller that wants the packet on the wire sets `hdr.len` to
    /// the payload's length.
    pub fn new(hdr: VirtioVsockHdr, payload: Vec<u8>) -> (packet: Self)
        ensures
            packet@ == (PacketView { hdr, payload: payload@ }),
    {
        Self { hdr, payload }
    }

    /// Returns a reference to the packet's header.
    pub fn hdr(&self) -> (hdr: &VirtioVsockHdr)
        ensures
            *hdr == self@.hdr,
    {
        &self.hdr
    }

    /// Returns a reference to the packet's payload.
    pub fn payload(&self) -> (payload: &[u8])
        ensures
            payload@ == self@.payload,
    {
        self.payload.as_slice()
    }

    /// Consumes the packet and returns its header and payload.
    pub fn into_parts(self) -> (parts: (VirtioVsockHdr, Vec<u8>))
        ensures
            parts.0 == self@.hdr,
            parts.1@ == self@.payload,
    {
        (self.hdr, self.payload)
    }

    /// Serializes the full packet (header and payload) into a byte vector.
    pub fn to_bytes(&self) -> (bytes: Vec<u8>)
        ensures
            bytes@ == encode(self@),
    {
        let mut bytes = self.hdr.to_bytes();
        bytes.extend_from_slice(self.payload.as_slice());
        bytes
    }

    /// Creates a packet from a byte slice that starts with the full packet
    /// (header and payload).
    pub fn from_bytes(bytes: &[u8]) -> (packet: Result<Self, ProtocolError>)
        ensures
            match packet {
                Ok(p) => decode(bytes@) == Ok::<PacketView, ProtocolError>(p@) && p@.wf()
                    && encode(p@) == bytes@.subrange(0, HDR_SIZE + p@.payload.len()),
                Err(e) => decode(bytes@) == Err::<PacketView, ProtocolError>(e),
            },
    {
        if bytes.len() < HDR_SIZE {
            return Err(ProtocolError::ShortHeader);
        }
        let declared: u32 = get_le32(bytes, 16);
        if declared > MAX_PAYLOAD_LEN {
            return Err(ProtocolError::PayloadTooLarge);
        }
        let payload_len: usize = declared as usize;
        if bytes.len() - HDR_SIZE < payload_len {
            return Err(ProtocolError::ShortPayload);
        }
        let head = slice_subrange(bytes, 0, HDR_SIZE);
        let hdr = match VirtioVsockHdr::from_bytes(head) {
            Some(hdr) => hdr,
            None => {
                return Err(ProtocolError::ShortHeader);
            },
        };
        let payload = slice_to_vec(slice_subrange(bytes, HDR_SIZE, HDR_SIZE + payload_len));
        proof {
            assert(head@.subrange(16, 20) =~= bytes@.subrange(16, 20));
            lemma_le32_range(bytes@.subrange(16, 20));
            lemma_encode_decode(bytes@);
        }
        Ok(Self { hdr, payload })
    }

    /// Reads a full packet from `reader`: the header first, then as many
    /// payload bytes as it declares. A payload of more than 4096 bytes is
    /// refused before any of it is read. From a reliable source the result
    /// is `read_packet` of what it holds, and a packet that was read is
    /// taken from its front.
    pub fn from_read<R: PacketSource>(reader: &mut R) -> (packet: Result<Self, ReadError>)
        ensures
            packet matches Ok(p) ==> p@.wf(),
            packet matches Err(ReadError::Protocol(e)) ==> e == ProtocolError::PayloadTooLarge,
            old(reader).reliable() ==> final(reader).reliable() && match packet {
                Ok(p) => read_packet(old(reader).remaining()) == Ok::<PacketView, ReadError>(p@)
                    && final(reader).remaining() == old(reader).remaining().skip(
                    HDR_SIZE + p@.payload.len(),
                ),
                Err(e) => read_packet(old(reader).remaining()) == Err::<PacketView, ReadError>(e),
            },
    {
        let ghost all = reader.remaining();
        let ghost reliable = reader.reliable();
        let head = match reader.read_exact(HDR_SIZE) {
            Some(head) => head,
            None => {
                return Err(ReadError::Source);
            },
        };
        if head.len() != HDR_SIZE {
            return Err(ReadError::Source);
        }
        let hdr = match VirtioVsockHdr::from_bytes(head.as_slice()) {
            Some(hdr) => hdr,
            None => {
                return Err(ReadError::Source);
            },
        };
        proof {
            if reliable {
                assert(head@.subrange(16, 20) =~= all.subrange(16, 20));
                lemma_le32_range(all.subrange(16, 20));
                assert(hdr == decode_header(all.subrange(0, HDR_SIZE as int)));
            }
        }
        if hdr.len > MAX_PAYLOAD_LEN {
            return Err(ReadError::Protocol(ProtocolError::PayloadTooLarge));
        }
        if hdr.len == 0 {
            let payload: Vec<u8> = Vec::new();
            proof {
                if reliable {
                    assert(payload@ =~= all.subrange(HDR_SIZE as int, HDR_SIZE + 0));
                }
            }
            return Ok(Self { hdr, payload });
        }
        let payload = match reader.read_exact(hdr.len as usize) {
            Some(payload) => payload,
            None => {
                return Err(ReadError::Source);
            },
        };
        if payload.len() != hdr.len as usize {
            return Err(ReadError::Source);
        }
        proof {
            if reliable {
                assert(payload@ =~= all.subrange(HDR_SIZE as int, HDR_SIZE + hdr.len));
                assert(all.skip(HDR_SIZE as int).skip(hdr.len as int) =~= all.skip(
                    HDR_SIZE + hdr.len,
                ));
            }
        }
        Ok(Self { hdr, payload })
    }
}

} // verus!
