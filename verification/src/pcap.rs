//! A small pcap reader: the capture file header, its records, the Ethernet
//! frame inside each record, and the IPv4 packet inside each frame.
//!
//! Every field is read from the raw bytes and checked: the reader accepts
//! exactly little-endian captures of version 2.4 over Ethernet, untruncated
//! records, and plain IPv4 packets carrying TCP or UDP.

use vstd::prelude::*;

verus! {

/// The length of the pcap file header.
pub const HEADER_LENGTH: usize = 24;

/// Why a capture, record, frame, or packet was rejected.
#[derive(Debug, Copy, Clone, PartialEq, Eq, Structural)]
pub enum PcapError {
    /// The bytes end before the structure being read does.
    TruncatedCapture,
    /// The file magic is not the little-endian pcap magic.
    BadMagic,
    /// The format version is not 2.4.
    BadVersion,
    /// The snapshot length is not 65535.
    BadSnapLen,
    /// The link type is not Ethernet.
    BadLinkType,
    /// A record's captured length differs from its original length.
    TruncatedPacket,
    /// The Ethernet type/length field does not announce IPv4.
    NotIp { found: u16 },
    /// The IP version nibble is not 4.
    NotIpv4 { version: u8 },
    /// The IPv4 header carries options.
    HasOptions { ihl: u8 },
    /// The IP protocol is neither TCP nor UDP.
    UnknownProtocol { byte: u8 },
}

/// The 16-bit little-endian value at `p`.
pub open spec fn le16(d: Seq<u8>, p: int) -> int {
    d[p] + d[p + 1] * 0x100
}

/// The 32-bit little-endian value at `p`.
pub open spec fn le32(d: Seq<u8>, p: int) -> int {
    d[p] + d[p + 1] * 0x100 + d[p + 2] * 0x10000 + d[p + 3] * 0x1000000
}

/// The 16-bit big-endian value at `p`.
pub open spec fn be16(d: Seq<u8>, p: int) -> int {
    d[p] * 0x100 + d[p + 1]
}

/// The 32-bit big-endian value at `p`.
pub open spec fn be32(d: Seq<u8>, p: int) -> int {
    d[p] * 0x1000000 + d[p + 1] * 0x10000 + d[p + 2] * 0x100 + d[p + 3]
}

fn get_u16_le(d: &[u8], p: usize) -> (r: u16)
    requires
        p + 2 <= d@.len(),
    ensures
        r as int == le16(d@, p as int),
{
    d[p] as u16 + d[p + 1] as u16 * 0x100
}

fn get_u32_le(d: &[u8], p: usize) -> (r: u32)
    requires
        p + 4 <= d@.len(),
    ensures
        r as int == le32(d@, p as int),
{
    d[p] as u32 + d[p + 1] as u32 * 0x100 + d[p + 2] as u32 * 0x10000 + d[p + 3] as u32
        * 0x1000000
}

fn get_u16_be(d: &[u8], p: usize) -> (r: u16)
    requires
        p + 2 <= d@.len(),
    ensures
        r as int == be16(d@, p as int),
{
    d[p] as u16 * 0x100 + d[p + 1] as u16
}

fn get_u32_be(d: &[u8], p: usize) -> (r: u32)
    requires
        p + 4 <= d@.len(),
    ensures
        r as int == be32(d@, p as int),
{
    d[p] as u32 * 0x1000000 + d[p + 1] as u32 * 0x10000 + d[p + 2] as u32 * 0x100 + d[p
        + 3] as u32
}

/// Whether the bytes begin with an acceptable pcap file header:
/// little-endian magic, version 2.4, snapshot length 65535, Ethernet.
pub open spec fn header_ok(d: Seq<u8>) -> bool {
    &&& d.len() >= 24
    &&& le32(d, 0) == 0xA1B2C3D4
    &&& le16(d, 4) == 2
    &&& le16(d, 6) == 4
    &&& le32(d, 16) == 0xFFFF
    &&& le32(d, 20) == 1
}

/// The first header check that fails, for the bytes of an unacceptable
/// capture.
pub open spec fn header_error(d: Seq<u8>) -> PcapError {
    if d.len() < 24 {
        PcapError::TruncatedCapture
    } else if le32(d, 0) != 0xA1B2C3D4 {
        PcapError::BadMagic
    } else if le16(d, 4) != 2 || le16(d, 6) != 4 {
        PcapError::BadVersion
    } else if le32(d, 16) != 0xFFFF {
        PcapError::BadSnapLen
    } else {
        PcapError::BadLinkType
    }
}

/// A validated capture: the raw bytes of a pcap file whose header has been
/// checked.
#[derive(Debug)]
pub struct Capture<'a> {
    data: &'a [u8],
}

impl View for Capture<'_> {
    type V = Seq<u8>;

    closed spec fn view(&self) -> Seq<u8> {
        self.data@
    }
}

impl<'a> Capture<'a> {
    /// Validate the file header of a capture: the result is `Ok` exactly
    /// when the header is acceptable, and otherwise names the first check
    /// that failed.
    pub fn new(data: &'a [u8]) -> (r: Result<Capture<'a>, PcapError>)
        ensures
            (r is Ok) <==> header_ok(data@),
            r matches Ok(c) ==> c@ == data@,
            r matches Err(e) ==> e == header_error(data@),
    {
        if data.len() < 24 {
            return Err(PcapError::TruncatedCapture);
        }
        let magic = get_u32_le(data, 0);
        if magic != 0xA1B2C3D4 {
            return Err(PcapError::BadMagic);
        }
        let major = get_u16_le(data, 4);
        let minor = get_u16_le(data, 6);
        if major != 2 || minor != 4 {
            return Err(PcapError::BadVersion);
        }
        let snap_len = get_u32_le(data, 16);
        if snap_len != 0xFFFF {
            return Err(PcapError::BadSnapLen);
        }
        let link_type = get_u32_le(data, 20);
        if link_type != 1 {
            return Err(PcapError::BadLinkType);
        }
        Ok(Capture { data })
    }

    /// The records of this capture, in file order.
    pub fn records(&self) -> (r: Records<'a>)
        ensures
            r@.data == self@,
            r@.position == 24,
    {
        Records::new(self)
    }
}

/// A cursor over the records of a capture.
pub struct Records<'a> {
    data: &'a [u8],
    position: usize,
}

/// The mathematical value of a [`Records`] cursor.
#[verifier::ext_equal]
pub struct RecordsV {
    pub data: Seq<u8>,
    pub position: nat,
}

impl View for Records<'_> {
    type V = RecordsV;

    closed spec fn view(&self) -> RecordsV {
        RecordsV { data: self.data@, position: self.position as nat }
    }
}

/// Whether a whole record (16-byte record header plus frame bytes) lies at
/// `p`, untruncated.
pub open spec fn frame_ok(d: Seq<u8>, p: int) -> bool {
    &&& p + 16 <= d.len()
    &&& le32(d, p + 8) == le32(d, p + 12)
    &&& p + 16 + le32(d, p + 8) <= d.len()
}

/// The frame bytes of the record at `p`.
pub open spec fn frame_bytes(d: Seq<u8>, p: int) -> Seq<u8> {
    d.subrange(p + 16, p + 16 + le32(d, p + 8))
}

/// The position just past the record at `p`.
pub open spec fn frame_end(d: Seq<u8>, p: int) -> int {
    p + 16 + le32(d, p + 8)
}

/// The error reported for a bad record at `p`.
pub open spec fn frame_error(d: Seq<u8>, p: int) -> PcapError {
    if p + 16 <= d.len() && le32(d, p + 8) != le32(d, p + 12) {
        PcapError::TruncatedPacket
    } else {
        PcapError::TruncatedCapture
    }
}

/// One Ethernet frame captured in a record.
#[derive(Debug)]
pub struct PhysicalFrame<'a> {
    data: &'a [u8],
}

impl View for PhysicalFrame<'_> {
    type V = Seq<u8>;

    closed spec fn view(&self) -> Seq<u8> {
        self.data@
    }
}

impl<'a> PhysicalFrame<'a> {
    /// Read the record at `*position`: timestamps are skipped, the
    /// captured length must equal the original length, and the frame bytes
    /// must all be present.
    ///
    /// A record whose lengths disagree or whose frame bytes are missing
    /// leaves the cursor just past its 16-byte record header; a record
    /// whose header is itself cut short leaves the cursor unmoved.
    pub fn read(data: &'a [u8], position: &mut usize) -> (r: Result<
        PhysicalFrame<'a>,
        PcapError,
    >)
        ensures
            (r is Ok) <==> frame_ok(data@, *old(position) as int),
            r matches Ok(f) ==> f@ == frame_bytes(data@, *old(position) as int)
                && *final(position) as int == frame_end(data@, *old(position) as int),
            r matches Err(e) ==> e == frame_error(data@, *old(position) as int)
                && *final(position) as int == (if *old(position) as int + 16 <= data@.len() {
                *old(position) as int + 16
            } else {
                *old(position) as int
            }),
    {
        let p = *position;
        if p > data.len() || data.len() - p < 16 {
            return Err(PcapError::TruncatedCapture);
        }
        *position = p + 16;
        let captured = get_u32_le(data, p + 8);
        let original = get_u32_le(data, p + 12);
        if captured != original {
            return Err(PcapError::TruncatedPacket);
        }
        let captured = captured as usize;
        if data.len() - (p + 16) < captured {
            return Err(PcapError::TruncatedCapture);
        }
        let enclosed = &data[p + 16..p + 16 + captured];
        *position = p + 16 + captured;
        Ok(PhysicalFrame { data: enclosed })
    }

    /// The number of frame bytes.
    pub fn len(&self) -> (r: usize)
        ensures
            r as int == self@.len(),
    {
        self.data.len()
    }

    /// Parse the IPv4 packet inside this frame.
    pub fn ip(self) -> (r: Result<IpPacket<'a>, PcapError>)
        ensures
            (r is Ok) <==> ip_ok(self@),
            r matches Ok(p) ==> p.data@ == ip_payload(self@) && p.protocol == ip_protocol(self@)
                && p.source.bits as int == be32(self@, 26) && p.dest.bits as int == be32(
                self@,
                30,
            ),
            r matches Err(e) ==> e == ip_error(self@),
    {
        IpPacket::new(self)
    }
}

impl<'a> Records<'a> {
    fn new(pcap: &Capture<'a>) -> (r: Records<'a>)
        ensures
            r@.data == pcap@,
            r@.position == 24,
    {
        Records { data: pcap.data, position: HEADER_LENGTH }
    }

    /// The next record, `Ok(None)` at the exact end of the capture, or the
    /// error describing a malformed record; a malformed record with a
    /// whole 16-byte header leaves the cursor just past that header.
    pub fn next(&mut self) -> (r: Result<Option<PhysicalFrame<'a>>, PcapError>)
        ensures
            final(self)@.data == old(self)@.data,
            old(self)@.position == old(self)@.data.len() ==> (r matches Ok(f) && f is None
                && final(self)@ == old(self)@),
            old(self)@.position != old(self)@.data.len() ==> match r {
                Ok(f) => f matches Some(frame) && frame_ok(
                    old(self)@.data,
                    old(self)@.position as int,
                ) && frame@ == frame_bytes(old(self)@.data, old(self)@.position as int)
                    && final(self)@.position as int == frame_end(
                    old(self)@.data,
                    old(self)@.position as int,
                ),
                Err(e) => !frame_ok(old(self)@.data, old(self)@.position as int) && e
                    == frame_error(old(self)@.data, old(self)@.position as int)
                    && final(self)@.position as int == (
                if old(self)@.position as int + 16 <= old(self)@.data.len() {
                    old(self)@.position as int + 16
                } else {
                    old(self)@.position as int
                }),
            },
    {
        if self.position == self.data.len() {
            return Ok(None);
        }
        let frame = PhysicalFrame::read(self.data, &mut self.position)?;
        Ok(Some(frame))
    }
}

/// An IPv4 address, as its 32 bits.
#[derive(Debug, Copy, Clone, PartialEq, Eq, Hash, Structural)]
pub struct Ipv4Address {
    /// The address, most significant octet first.
    pub bits: u32,
}

impl Ipv4Address {
    /// The four octets of the address, most significant first.
    pub fn octets(&self) -> (r: (u8, u8, u8, u8))
        ensures
            r.0 as int == self.bits as int / 0x1000000,
            r.1 as int == (self.bits as int / 0x10000) % 0x100,
            r.2 as int == (self.bits as int / 0x100) % 0x100,
            r.3 as int == self.bits as int % 0x100,
    {
        (
            (self.bits / 0x1000000) as u8,
            ((self.bits / 0x10000) % 0x100) as u8,
            ((self.bits / 0x100) % 0x100) as u8,
            (self.bits % 0x100) as u8,
        )
    }
}

/// The transport protocol of an IPv4 packet.
#[derive(Debug, Copy, Clone, PartialEq, Eq, Structural)]
pub enum Protocol {
    /// Transmission Control Protocol, IP protocol number 6.
    TCP,
    /// User Datagram Protocol, IP protocol number 17.
    UDP,
}

impl Protocol {
    /// The protocol named by an IP protocol number; every number other
    /// than 6 and 17 is rejected.
    pub fn from_byte(b: u8) -> (r: Result<Protocol, PcapError>)
        ensures
            b == 0x06 ==> r == Ok::<Protocol, PcapError>(Protocol::TCP),
            b == 0x11 ==> r == Ok::<Protocol, PcapError>(Protocol::UDP),
            b != 0x06 && b != 0x11 ==> r == Err::<Protocol, PcapError>(
                PcapError::UnknownProtocol { byte: b },
            ),
    {
        match b {
            0x06 => Ok(Protocol::TCP),
            0x11 => Ok(Protocol::UDP),
            _ => Err(PcapError::UnknownProtocol { byte: b }),
        }
    }
}

/// Whether the frame holds an acceptable IPv4 packet: an IPv4 ethertype,
/// version 4, no header options, and a TCP or UDP protocol number.
pub open spec fn ip_ok(d: Seq<u8>) -> bool {
    &&& d.len() >= 34
    &&& be16(d, 12) == 0x0800
    &&& d[14] / 16 == 4
    &&& d[14] % 16 == 5
    &&& (d[23] == 0x06 || d[23] == 0x11)
}

/// The transport payload: everything after the fixed 20-byte IPv4 header,
/// the header's total-length field notwithstanding.
pub open spec fn ip_payload(d: Seq<u8>) -> Seq<u8> {
    d.subrange(34, d.len() as int)
}

/// The protocol of an acceptable packet.
pub open spec fn ip_protocol(d: Seq<u8>) -> Protocol {
    if d[23] == 0x06 {
        Protocol::TCP
    } else {
        Protocol::UDP
    }
}

/// The first check that fails for a frame that holds no acceptable IPv4
/// packet.
pub open spec fn ip_error(d: Seq<u8>) -> PcapError {
    if d.len() < 14 {
        PcapError::TruncatedCapture
    } else if be16(d, 12) != 0x0800 {
        PcapError::NotIp { found: be16(d, 12) as u16 }
    } else if d.len() < 34 {
        PcapError::TruncatedCapture
    } else if d[14] / 16 != 4 {
        PcapError::NotIpv4 { version: (d[14] / 16) as u8 }
    } else if d[14] % 16 != 5 {
        PcapError::HasOptions { ihl: (d[14] % 16) as u8 }
    } else {
        PcapError::UnknownProtocol { byte: d[23] }
    }
}

/// One IPv4 packet: its transport payload, protocol, and addresses.
///
/// The IPv4 header's total-length field is not consulted: the payload is
/// every frame byte past the fixed 34-byte Ethernet-plus-IPv4 header, so a
/// frame padded beyond the IP datagram yields the padding too.
#[derive(Debug)]
pub struct IpPacket<'a> {
    /// The transport-level payload bytes.
    pub data: &'a [u8],
    /// The transport protocol.
    pub protocol: Protocol,
    /// The source address.
    pub source: Ipv4Address,
    /// The destination address.
    pub dest: Ipv4Address,
}

impl<'a> IpPacket<'a> {
    fn new(phys: PhysicalFrame<'a>) -> (r: Result<IpPacket<'a>, PcapError>)
        ensures
            (r is Ok) <==> ip_ok(phys@),
            r matches Ok(p) ==> p.data@ == ip_payload(phys@) && p.protocol == ip_protocol(phys@)
                && p.source.bits as int == be32(phys@, 26) && p.dest.bits as int == be32(
                phys@,
                30,
            ),
            r matches Err(e) ==> e == ip_error(phys@),
    {
        let data = phys.data;
        if data.len() < 14 {
            return Err(PcapError::TruncatedCapture);
        }
        let type_length = get_u16_be(data, 12);
        if type_length != 0x0800 {
            return Err(PcapError::NotIp { found: type_length });
        }
        if data.len() < 34 {
            return Err(PcapError::TruncatedCapture);
        }
        let magic = data[14];
        let version = magic / 16;
        let ihl = magic % 16;
        if version != 4 {
            return Err(PcapError::NotIpv4 { version });
        }
        if ihl != 5 {
            return Err(PcapError::HasOptions { ihl });
        }
        let protocol_byte = data[23];
        let protocol = match Protocol::from_byte(protocol_byte) {
            Ok(p) => p,
            Err(e) => {
                return Err(e);
            },
        };
        let source = Ipv4Address { bits: get_u32_be(data, 26) };
        let dest = Ipv4Address { bits: get_u32_be(data, 30) };
        let payload = &data[34..data.len()];
        Ok(IpPacket { data: payload, protocol, source, dest })
    }
}

} // verus!
