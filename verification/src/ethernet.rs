//! layout of the ethernet frames carrying ethercat frames, as specified in ISO/IEC 8802-3
use vstd::prelude::*;

verus! {

/// ethernet type of the ethercat protocol
pub const ETHERCAT_PROTOCOL: u16 = 0x88a4;
/// size of an ethernet header
pub const ETHERNET_HEADER_SIZE: usize = 14;
/// smallest ethernet frame, shorter frames are padded with zeros
pub const MIN_ETHERNET_FRAME: usize = 60;
/// biggest possible ethernet frame allowed by 802.3: 1500 payload + 14 header
pub const MAX_ETHERNET_FRAME: usize = 1514;
/// maximum ethercat frame size carried by an ethernet frame
pub const ETHERNET_MAX_FRAME: usize = 1500;
/// maximum ethercat frame size carried by an UDP datagram: the ethernet payload less the IP and UDP headers
pub const UDP_MAX_FRAME: usize = 1500 - 20 - 8;
/// UDP port used by ethercat
pub const UDP_PORT: u16 = 0x88a4;

/// ethernet frame header as specified in ISO/IEC 8802-3
#[derive(Copy, Clone, Debug)]
pub struct EthernetHeader {
    /// destination MAC address
    pub dst: [u8; 6],
    /// source MAC address
    pub src: [u8; 6],
    /// ethernet protocol
    pub protocol: u16,
}

impl EthernetHeader {
    /// bytes of the header on the wire: destination, source, then protocol most significant byte first
    pub open spec fn bytes(&self) -> Seq<u8> {
        self.dst@ + self.src@ + seq![(self.protocol / 256) as u8, (self.protocol % 256) as u8]
    }

    /// the header of ethercat frames broadcasted on the segment
    pub fn broadcast() -> (r: Self)
        ensures
            r.dst@ == seq![0xffu8, 0xff, 0xff, 0xff, 0xff, 0xff],
            r.src@ == seq![0xffu8, 0xff, 0xff, 0xff, 0xff, 0xff],
            r.protocol == ETHERCAT_PROTOCOL,
    {
        let r = EthernetHeader { dst: [0xff; 6], src: [0xff; 6], protocol: ETHERCAT_PROTOCOL };
        assert(r.dst@ =~= seq![0xffu8, 0xff, 0xff, 0xff, 0xff, 0xff]);
        assert(r.src@ =~= seq![0xffu8, 0xff, 0xff, 0xff, 0xff, 0xff]);
        r
    }

    /// whether two headers are the same, as a received frame is filtered
    pub fn same(&self, other: &EthernetHeader) -> (r: bool)
        ensures
            r == (self.bytes() == other.bytes()),
    {
        let mut i: usize = 0;
        while i < 6
            invariant
                i <= 6,
                forall|j: int| 0 <= j < i ==> self.dst@[j] == other.dst@[j] && self.src@[j] == other.src@[j],
            decreases 6 - i,
        {
            if self.dst[i] != other.dst[i] || self.src[i] != other.src[i] {
                proof {
                    assert(self.bytes()[i as int] != other.bytes()[i as int] || self.bytes()[6 + i] != other.bytes()[6 + i]);
                }
                return false;
            }
            i = i + 1;
        }
        if self.protocol != other.protocol {
            proof {
                assert(self.bytes()[12] != other.bytes()[12] || self.bytes()[13] != other.bytes()[13]) by (nonlinear_arith)
                    requires
                        self.protocol != other.protocol,
                        self.bytes()[12] == (self.protocol / 256) as u8,
                        self.bytes()[13] == (self.protocol % 256) as u8,
                        other.bytes()[12] == (other.protocol / 256) as u8,
                        other.bytes()[13] == (other.protocol % 256) as u8,
                ;
            }
            return false;
        }
        assert(self.bytes() =~= other.bytes());
        true
    }

    /// the header read from the first bytes of a frame
    pub fn unpack(src: &[u8]) -> (r: Self)
        requires
            src@.len() >= ETHERNET_HEADER_SIZE,
        ensures
            r.bytes() == src@.subrange(0, ETHERNET_HEADER_SIZE as int),
    {
        let r = EthernetHeader {
            dst: [src[0], src[1], src[2], src[3], src[4], src[5]],
            src: [src[6], src[7], src[8], src[9], src[10], src[11]],
            protocol: src[12] as u16 * 256 + src[13] as u16,
        };
        assert(r.bytes() =~= src@.subrange(0, ETHERNET_HEADER_SIZE as int));
        r
    }
}

/// size of the ethernet frame carrying `len` bytes of data: header and data, padded to the minimum frame size
pub open spec fn frame_size(len: nat) -> nat {
    if ETHERNET_HEADER_SIZE + len < MIN_ETHERNET_FRAME {
        MIN_ETHERNET_FRAME as nat
    } else {
        (ETHERNET_HEADER_SIZE + len) as nat
    }
}

/// the ethernet frame carrying the given data: the header, the data, then zeros up to the minimum frame size
pub fn pack_frame(header: &EthernetHeader, data: &[u8]) -> (r: Vec<u8>)
    requires
        data@.len() + ETHERNET_HEADER_SIZE <= usize::MAX,
    ensures
        r@.len() == frame_size(data@.len()),
        r@.subrange(0, ETHERNET_HEADER_SIZE as int) == header.bytes(),
        r@.subrange(ETHERNET_HEADER_SIZE as int, ETHERNET_HEADER_SIZE + data@.len()) == data@,
        forall|i: int| ETHERNET_HEADER_SIZE + data@.len() <= i < r@.len() ==> r@[i] == 0,
{
    let mut r: Vec<u8> = Vec::new();
    let mut i: usize = 0;
    while i < 6
        invariant
            i <= 6,
            r@ == header.dst@.subrange(0, i as int),
        decreases 6 - i,
    {
        r.push(header.dst[i]);
        i = i + 1;
        assert(r@ =~= header.dst@.subrange(0, i as int));
    }
    i = 0;
    while i < 6
        invariant
            i <= 6,
            r@ == header.dst@ + header.src@.subrange(0, i as int),
        decreases 6 - i,
    {
        r.push(header.src[i]);
        i = i + 1;
        assert(r@ =~= header.dst@ + header.src@.subrange(0, i as int));
    }
    r.push((header.protocol / 256) as u8);
    r.push((header.protocol % 256) as u8);
    assert(r@ =~= header.bytes());
    i = 0;
    while i < data.len()
        invariant
            i <= data@.len(),
            r@ == header.bytes() + data@.subrange(0, i as int),
        decreases data@.len() - i,
    {
        r.push(data[i]);
        i = i + 1;
        assert(r@ =~= header.bytes() + data@.subrange(0, i as int));
    }
    let ghost content = r@;
    while r.len() < MIN_ETHERNET_FRAME
        invariant
            r@.len() >= content.len(),
            r@.len() <= frame_size(data@.len()),
            content == header.bytes() + data@,
            r@.subrange(0, content.len() as int) == content,
            forall|j: int| content.len() <= j < r@.len() ==> r@[j] == 0,
        decreases MIN_ETHERNET_FRAME - r@.len(),
    {
        r.push(0);
        assert(r@.subrange(0, content.len() as int) =~= content);
    }
    assert(r@.subrange(0, ETHERNET_HEADER_SIZE as int) =~= content.subrange(0, ETHERNET_HEADER_SIZE as int));
    assert(r@.subrange(ETHERNET_HEADER_SIZE as int, ETHERNET_HEADER_SIZE + data@.len())
        =~= content.subrange(ETHERNET_HEADER_SIZE as int, ETHERNET_HEADER_SIZE + data@.len()));
    r
}

/// the header of a received ethernet frame and the start of its data, if the frame holds a header
pub fn unpack_frame(src: &[u8]) -> (r: Option<(EthernetHeader, usize)>)
    ensures
        src@.len() < ETHERNET_HEADER_SIZE ==> r is None,
        src@.len() >= ETHERNET_HEADER_SIZE ==> (r matches Some((header, start))
            && header.bytes() == src@.subrange(0, ETHERNET_HEADER_SIZE as int)
            && start == ETHERNET_HEADER_SIZE),
{
    if src.len() < ETHERNET_HEADER_SIZE {
        return None;
    }
    Some((EthernetHeader::unpack(src), ETHERNET_HEADER_SIZE))
}

/// A header read from the bytes of a packed frame is the header packed.
pub proof fn law_header_roundtrip(a: EthernetHeader, b: EthernetHeader)
    ensures
        a.bytes() == b.bytes() ==> a == b,
{
    if a.bytes() == b.bytes() {
        assert(a.dst@ =~= a.bytes().subrange(0, 6));
        assert(b.dst@ =~= b.bytes().subrange(0, 6));
        assert(a.src@ =~= a.bytes().subrange(6, 12));
        assert(b.src@ =~= b.bytes().subrange(6, 12));
        assert(a.bytes()[12] == b.bytes()[12]);
        assert(a.bytes()[13] == b.bytes()[13]);
        assert(a.dst == b.dst);
        assert(a.src == b.src);
    }
}

} // verus!
