//! CoE (Canopen Over Ethercat): its frame headers, the frames of SDO transfers and the checks of the slave's answers
use vstd::prelude::*;
use vstd::arithmetic::power2::*;
use vstd::arithmetic::power2::{lemma2_to64, lemma2_to64_rest};
use crate::data::{
    PduData, Storage, TypeId, Endianness, PackingError, PackingResult, bit,
    bits_pack_result, bits_unpack_result, bits_pack_slice_result, bits_unpack_slice_result,
    pack_bits, unpack_bits,
};
use crate::error::{EthercatError, EthercatResult};
use crate::mailbox::{MailboxError, MailboxHeader, MAILBOX_MAX_SIZE, MAILBOX_HEADER_SIZE};
use crate::numbers::{le_bytes, le_value};

verus! {

/// maximum byte size of sdo data that can be expedited
pub const EXPEDITED_MAX_SIZE: usize = 4;
/// size of the CoE header
pub const COE_HEADER_SIZE: usize = 2;
/// size of the SDO header
pub const SDO_HEADER_SIZE: usize = 4;
/// size of the SDO segment header
pub const SDO_SEGMENT_HEADER_SIZE: usize = 1;
/// maximum byte size of an sdo data that can be put in a sdo segment
/// it is constrained by the mailbox buffer size on the slave
pub const SDO_SEGMENT_MAX_SIZE: usize = MAILBOX_MAX_SIZE - MAILBOX_HEADER_SIZE - COE_HEADER_SIZE - SDO_SEGMENT_HEADER_SIZE;
/// size of the total size announced by the first request of a segmented download
pub const SDO_DOWNLOAD_SIZE_FIELD: usize = 4;
/// maximum data carried by the first request of a segmented download: a mailbox less the mailbox, CoE and SDO
/// headers and the announced total size
pub const SDO_DOWNLOAD_MAX_SIZE: usize = MAILBOX_MAX_SIZE - MAILBOX_HEADER_SIZE - COE_HEADER_SIZE - SDO_HEADER_SIZE - SDO_DOWNLOAD_SIZE_FIELD;

/// header of a CoE frame
#[derive(Copy, Clone, Debug, PartialEq, Eq, Structural)]
pub struct CoeHeader {
    /// present in the Can protocol, but not used in CoE
    pub number: u16,
    /// reserved bits
    pub reserved: u8,
    /// Can command, a [CanService] code
    pub service: u8,
}

impl CoeHeader {
    /// the bits of the struct read as an integer, each field truncated to its width
    pub open spec fn raw(&self) -> nat {
        (self.number as nat % 0x200)
            + (self.reserved as nat % 0x8) * 0x200
            + (self.service as nat % 0x10) * 0x1000
    }

    /// every field fits in its width
    pub open spec fn wf(&self) -> bool {
        self.number < 0x200
        && self.reserved < 0x8
        && self.service < 0x10
    }

    /// the struct whose bits read as the integer `raw`
    pub open spec fn from_raw(raw: nat) -> Self {
        CoeHeader {
            number: (raw % 0x200) as u16,
            reserved: (raw / 0x200 % 0x8) as u8,
            service: (raw / 0x1000 % 0x10) as u8,
        }
    }

    /// the bits of the struct read as an integer, each field truncated to its width
    pub fn to_bits(&self) -> (r: u64)
        ensures
            r == self.raw(),
    {
        (self.number as u64 % 0x200)
            + (self.reserved as u64 % 0x8) * 0x200
            + (self.service as u64 % 0x10) * 0x1000
    }

    /// the struct whose bits read as the integer `raw`
    pub fn from_bits(raw: u64) -> (r: Self)
        requires
            raw < 0x10000,
        ensures
            r == Self::from_raw(raw as nat),
            r.wf(),
    {
        CoeHeader {
            number: (raw % 0x200) as u16,
            reserved: (raw / 0x200 % 0x8) as u8,
            service: (raw / 0x1000 % 0x10) as u8,
        }
    }
}

impl PduData for CoeHeader {
    const ID: TypeId = TypeId::CUSTOM;
    type Packed = [u8; 2];

    open spec fn pack_defined(len: nat, bitoffset: u8, bitsize: usize, bitordering: Endianness) -> bool {
        true
    }

    open spec fn spec_pack_slice(
        &self,
        data: Seq<u8>,
        bitoffset: u8,
        bitsize: usize,
        bitordering: Endianness,
    ) -> PackingResult<Seq<u8>> {
        bits_pack_slice_result(self.raw(), 2, data, bitoffset, bitsize)
    }

    open spec fn unpack_defined(len: nat, bitoffset: u8, bitsize: usize, bitordering: Endianness) -> bool {
        true
    }

    open spec fn spec_unpack_slice(
        src: Seq<u8>,
        bitoffset: u8,
        bitsize: usize,
        bitordering: Endianness,
    ) -> PackingResult<Self> {
        match bits_unpack_slice_result(src, 2, bitoffset, bitsize) {
            Ok(v) => Ok(Self::from_raw(v)),
            Err(e) => Err(e),
        }
    }

    open spec fn pack_whole_defined(len: nat) -> bool {
        true
    }

    open spec fn spec_pack(&self, data: Seq<u8>) -> PackingResult<Seq<u8>> {
        bits_pack_result(self.raw(), 2, data)
    }

    open spec fn unpack_whole_defined(len: nat) -> bool {
        true
    }

    open spec fn spec_unpack(src: Seq<u8>) -> PackingResult<Self> {
        match bits_unpack_result(src, 2) {
            Ok(v) => Ok(Self::from_raw(v)),
            Err(e) => Err(e),
        }
    }

    fn pack(&self, data: &mut [u8]) -> (r: PackingResult<()>) {
        proof {
            lemma2_to64();
        }
        pack_bits(self.to_bits(), 2, data)
    }

    fn unpack(src: &[u8]) -> (r: PackingResult<Self>) {
        proof {
            lemma2_to64();
            lemma2_to64_rest();
        }
        match unpack_bits(src, 2) {
            Ok(v) => Ok(Self::from_bits(v)),
            Err(e) => Err(e),
        }
    }

    fn pack_slice(
        &self,
        data: &mut [u8],
        bitoffset: u8,
        bitsize: usize,
        bitordering: Endianness,
    ) -> (r: PackingResult<()>) {
        if bitoffset != 0 {
            return Err(PackingError::BadAlignment(bitoffset as usize, "Bit offset must be at 0 on this implementation"));
        }
        if bitsize != 0 {
            return Err(PackingError::BadSize(bitsize, "Bit size must be at 0 on this implementation"));
        }
        self.pack(data)
    }

    fn unpack_slice(src: &[u8], bitoffset: u8, bitsize: usize, bitordering: Endianness) -> (r: PackingResult<Self>) {
        if bitoffset != 0 {
            return Err(PackingError::BadAlignment(bitoffset as usize, "Bit offset must be at 0 on this implementation"));
        }
        if bitsize != 0 {
            return Err(PackingError::BadSize(bitsize, "Bit size must be at 0 on this implementation"));
        }
        Self::unpack(src)
    }
}

/// The bits of a [CoeHeader] whose fields fit in their widths, read back as a struct, give the
/// same struct; and any integer of its width, turned into a struct and back, is unchanged.
pub proof fn law_coe_header_bits_roundtrip(h: CoeHeader, raw: nat)
    ensures
        h.wf() ==> CoeHeader::from_raw(h.raw()) == h,
        raw < 0x10000 ==> CoeHeader::from_raw(raw).raw() == raw,
{
}
/**
    Type of can service

    receiving and transmiting is from the point of view of the slave:
        - transmitting is slave -> master
        - receiving is master -> slave
*/
#[derive(Copy, Clone, Debug, PartialEq, Eq, Structural)]
pub enum CanService {
    Emergency,
    SdoRequest,
    SdoResponse,
    TransmitPdo,
    ReceivePdo,
    TransmitPdoRemoteRequest,
    ReceivePdoRemoteRequest,
    SdoInformation,
}

/// code of a [CanService] on the wire
pub open spec fn can_service_code(v: CanService) -> u8 {
    match v {
        CanService::Emergency => 0x1,
        CanService::SdoRequest => 0x2,
        CanService::SdoResponse => 0x3,
        CanService::TransmitPdo => 0x4,
        CanService::ReceivePdo => 0x5,
        CanService::TransmitPdoRemoteRequest => 0x6,
        CanService::ReceivePdoRemoteRequest => 0x7,
        CanService::SdoInformation => 0x8,
    }
}

/// the [CanService] of a code on the wire, if any
pub open spec fn can_service_of_code(code: u8) -> Option<CanService> {
    match code {
        0x1 => Some(CanService::Emergency),
        0x2 => Some(CanService::SdoRequest),
        0x3 => Some(CanService::SdoResponse),
        0x4 => Some(CanService::TransmitPdo),
        0x5 => Some(CanService::ReceivePdo),
        0x6 => Some(CanService::TransmitPdoRemoteRequest),
        0x7 => Some(CanService::ReceivePdoRemoteRequest),
        0x8 => Some(CanService::SdoInformation),
        _ => None,
    }
}

impl CanService {
    /// code on the wire
    pub fn code(self) -> (r: u8)
        ensures
            r == can_service_code(self),
    {
        match self {
            CanService::Emergency => 0x1,
            CanService::SdoRequest => 0x2,
            CanService::SdoResponse => 0x3,
            CanService::TransmitPdo => 0x4,
            CanService::ReceivePdo => 0x5,
            CanService::TransmitPdoRemoteRequest => 0x6,
            CanService::ReceivePdoRemoteRequest => 0x7,
            CanService::SdoInformation => 0x8,
        }
    }

    /// the variant of a code on the wire, if any
    pub fn from_code(code: u8) -> (r: Option<Self>)
        ensures
            r == can_service_of_code(code),
    {
        match code {
            0x1 => Some(CanService::Emergency),
            0x2 => Some(CanService::SdoRequest),
            0x3 => Some(CanService::SdoResponse),
            0x4 => Some(CanService::TransmitPdo),
            0x5 => Some(CanService::ReceivePdo),
            0x6 => Some(CanService::TransmitPdoRemoteRequest),
            0x7 => Some(CanService::ReceivePdoRemoteRequest),
            0x8 => Some(CanService::SdoInformation),
            _ => None,
        }
    }
}

/// Decoding the code of a [CanService] gives back the same variant.
pub proof fn law_can_service_code_roundtrip(v: CanService)
    ensures
        can_service_of_code(can_service_code(v)) == Some(v),
{
}
/// Header for operations with SDOs
///
/// ETG.1000.6 5.6.2
#[derive(Copy, Clone, Debug, PartialEq, Eq, Structural)]
pub struct SdoHeader {
    /// true if field `size` is used
    pub sized: bool,
    /// true in case of an expedited transfer (the data size specified by `size`)
    pub expedited: bool,
    /// indicate the data size but not as an integer: `4 - data.len()`
    pub size: u8,
    /// true if a complete SDO is accessed
    pub complete: bool,
    /// operation to perform with the indexed SDO, a [SdoCommandRequest] or [SdoCommandResponse] code
    pub command: u8,
    /// SDO index
    pub index: u16,
    /// if subitem is accessed: SDO subindex, if complete item is accessed: 0 to include subindex 0 in transmission, 1 to exclude it
    pub sub: u8,
}

impl SdoHeader {
    /// the bits of the struct read as an integer, each field truncated to its width
    pub open spec fn raw(&self) -> nat {
        (if self.sized { 1nat } else { 0nat })
            + (if self.expedited { 1nat } else { 0nat }) * 0x2
            + (self.size as nat % 0x4) * 0x4
            + (if self.complete { 1nat } else { 0nat }) * 0x10
            + (self.command as nat % 0x8) * 0x20
            + (self.index as nat % 0x10000) * 0x100
            + (self.sub as nat % 0x100) * 0x1000000
    }

    /// every field fits in its width
    pub open spec fn wf(&self) -> bool {
        self.size < 0x4
        && self.command < 0x8
    }

    /// the struct whose bits read as the integer `raw`
    pub open spec fn from_raw(raw: nat) -> Self {
        SdoHeader {
            sized: (raw % 0x2) == 1,
            expedited: (raw / 0x2 % 0x2) == 1,
            size: (raw / 0x4 % 0x4) as u8,
            complete: (raw / 0x10 % 0x2) == 1,
            command: (raw / 0x20 % 0x8) as u8,
            index: (raw / 0x100 % 0x10000) as u16,
            sub: (raw / 0x1000000 % 0x100) as u8,
        }
    }

    /// the bits of the struct read as an integer, each field truncated to its width
    #[verifier::rlimit(60)]
    pub fn to_bits(&self) -> (r: u64)
        ensures
            r == self.raw(),
    {
        let mut r: u64 = (if self.sized { 1u64 } else { 0u64 });
        assert(r < 0x2);
        r = r + (if self.expedited { 1u64 } else { 0u64 }) * 0x2;
        assert(r < 0x4);
        r = r + (self.size as u64 % 0x4) * 0x4;
        assert(r < 0x10);
        r = r + (if self.complete { 1u64 } else { 0u64 }) * 0x10;
        assert(r < 0x20);
        r = r + (self.command as u64 % 0x8) * 0x20;
        assert(r < 0x100);
        r = r + (self.index as u64 % 0x10000) * 0x100;
        assert(r < 0x1000000);
        r = r + (self.sub as u64 % 0x100) * 0x1000000;
        r
    }

    /// the struct whose bits read as the integer `raw`
    pub fn from_bits(raw: u64) -> (r: Self)
        requires
            raw < 0x100000000,
        ensures
            r == Self::from_raw(raw as nat),
            r.wf(),
    {
        SdoHeader {
            sized: (raw % 0x2) == 1,
            expedited: (raw / 0x2 % 0x2) == 1,
            size: (raw / 0x4 % 0x4) as u8,
            complete: (raw / 0x10 % 0x2) == 1,
            command: (raw / 0x20 % 0x8) as u8,
            index: (raw / 0x100 % 0x10000) as u16,
            sub: (raw / 0x1000000 % 0x100) as u8,
        }
    }
}

impl PduData for SdoHeader {
    const ID: TypeId = TypeId::CUSTOM;
    type Packed = [u8; 4];

    open spec fn pack_defined(len: nat, bitoffset: u8, bitsize: usize, bitordering: Endianness) -> bool {
        true
    }

    open spec fn spec_pack_slice(
        &self,
        data: Seq<u8>,
        bitoffset: u8,
        bitsize: usize,
        bitordering: Endianness,
    ) -> PackingResult<Seq<u8>> {
        bits_pack_slice_result(self.raw(), 4, data, bitoffset, bitsize)
    }

    open spec fn unpack_defined(len: nat, bitoffset: u8, bitsize: usize, bitordering: Endianness) -> bool {
        true
    }

    open spec fn spec_unpack_slice(
        src: Seq<u8>,
        bitoffset: u8,
        bitsize: usize,
        bitordering: Endianness,
    ) -> PackingResult<Self> {
        match bits_unpack_slice_result(src, 4, bitoffset, bitsize) {
            Ok(v) => Ok(Self::from_raw(v)),
            Err(e) => Err(e),
        }
    }

    open spec fn pack_whole_defined(len: nat) -> bool {
        true
    }

    open spec fn spec_pack(&self, data: Seq<u8>) -> PackingResult<Seq<u8>> {
        bits_pack_result(self.raw(), 4, data)
    }

    open spec fn unpack_whole_defined(len: nat) -> bool {
        true
    }

    open spec fn spec_unpack(src: Seq<u8>) -> PackingResult<Self> {
        match bits_unpack_result(src, 4) {
            Ok(v) => Ok(Self::from_raw(v)),
            Err(e) => Err(e),
        }
    }

    fn pack(&self, data: &mut [u8]) -> (r: PackingResult<()>) {
        proof {
            lemma2_to64();
        }
        pack_bits(self.to_bits(), 4, data)
    }

    fn unpack(src: &[u8]) -> (r: PackingResult<Self>) {
        proof {
            lemma2_to64();
            lemma2_to64_rest();
        }
        match unpack_bits(src, 4) {
            Ok(v) => Ok(Self::from_bits(v)),
            Err(e) => Err(e),
        }
    }

    fn pack_slice(
        &self,
        data: &mut [u8],
        bitoffset: u8,
        bitsize: usize,
        bitordering: Endianness,
    ) -> (r: PackingResult<()>) {
        if bitoffset != 0 {
            return Err(PackingError::BadAlignment(bitoffset as usize, "Bit offset must be at 0 on this implementation"));
        }
        if bitsize != 0 {
            return Err(PackingError::BadSize(bitsize, "Bit size must be at 0 on this implementation"));
        }
        self.pack(data)
    }

    fn unpack_slice(src: &[u8], bitoffset: u8, bitsize: usize, bitordering: Endianness) -> (r: PackingResult<Self>) {
        if bitoffset != 0 {
            return Err(PackingError::BadAlignment(bitoffset as usize, "Bit offset must be at 0 on this implementation"));
        }
        if bitsize != 0 {
            return Err(PackingError::BadSize(bitsize, "Bit size must be at 0 on this implementation"));
        }
        Self::unpack(src)
    }
}

/// The bits of a [SdoHeader] whose fields fit in their widths, read back as a struct, give the
/// same struct; and any integer of its width, turned into a struct and back, is unchanged.
#[verifier::rlimit(60)]
pub proof fn law_sdo_header_bits_roundtrip(h: SdoHeader, raw: nat)
    ensures
        h.wf() ==> SdoHeader::from_raw(h.raw()) == h,
        raw < 0x100000000 ==> SdoHeader::from_raw(raw).raw() == raw,
{
    let x_sized: u64 = (if h.sized { 1u64 } else { 0u64 });
    let x_expedited: u64 = (if h.expedited { 1u64 } else { 0u64 });
    let x_size: u64 = (h.size as u64);
    let x_complete: u64 = (if h.complete { 1u64 } else { 0u64 });
    let x_command: u64 = (h.command as u64);
    let x_index: u64 = (h.index as u64);
    let x_sub: u64 = (h.sub as u64);
    let v: u64 = (x_sized + x_expedited * 0x2 + x_size * 0x4 + x_complete * 0x10 + x_command * 0x20 + x_index * 0x100 + x_sub * 0x1000000) as u64;
    let r: u64 = raw as u64;
    assert({
        &&& !(v == x_sized + x_expedited * 0x2 + x_size * 0x4 + x_complete * 0x10 + x_command * 0x20 + x_index * 0x100 + x_sub * 0x1000000 && x_sized < 0x2 && x_expedited < 0x2 && x_size < 0x4 && x_complete < 0x2 && x_command < 0x8 && x_index < 0x10000 && x_sub < 0x100) || (v % 0x2 == x_sized && v / 0x2 % 0x2 == x_expedited && v / 0x4 % 0x4 == x_size && v / 0x10 % 0x2 == x_complete && v / 0x20 % 0x8 == x_command && v / 0x100 % 0x10000 == x_index && v / 0x1000000 % 0x100 == x_sub)
        &&& !(r < 0x100000000) || ((r % 0x2) + (r / 0x2 % 0x2) * 0x2 + (r / 0x4 % 0x4) * 0x4 + (r / 0x10 % 0x2) * 0x10 + (r / 0x20 % 0x8) * 0x20 + (r / 0x100 % 0x10000) * 0x100 + (r / 0x1000000 % 0x100) * 0x1000000 == r)
    }) by (bit_vector);
    if h.wf() {
        assert(h.raw() == x_sized + x_expedited * 0x2 + x_size * 0x4 + x_complete * 0x10 + x_command * 0x20 + x_index * 0x100 + x_sub * 0x1000000);
    }
}
/// Header of a SDO segment
#[derive(Copy, Clone, Debug, PartialEq, Eq, Structural)]
pub struct SdoSegmentHeader {
    /// true if more segments follow
    pub more: bool,
    /// number of unused bytes in a 7 bytes segment
    pub size: u8,
    /// alternates at each segment
    pub toggle: bool,
    /// operation, a [SdoCommandRequest] or [SdoCommandResponse] code
    pub command: u8,
}

impl SdoSegmentHeader {
    /// the bits of the struct read as an integer, each field truncated to its width
    pub open spec fn raw(&self) -> nat {
        (if self.more { 1nat } else { 0nat })
            + (self.size as nat % 0x8) * 0x2
            + (if self.toggle { 1nat } else { 0nat }) * 0x10
            + (self.command as nat % 0x8) * 0x20
    }

    /// every field fits in its width
    pub open spec fn wf(&self) -> bool {
        self.size < 0x8
        && self.command < 0x8
    }

    /// the struct whose bits read as the integer `raw`
    pub open spec fn from_raw(raw: nat) -> Self {
        SdoSegmentHeader {
            more: (raw % 0x2) == 1,
            size: (raw / 0x2 % 0x8) as u8,
            toggle: (raw / 0x10 % 0x2) == 1,
            command: (raw / 0x20 % 0x8) as u8,
        }
    }

    /// the bits of the struct read as an integer, each field truncated to its width
    pub fn to_bits(&self) -> (r: u64)
        ensures
            r == self.raw(),
    {
        (if self.more { 1u64 } else { 0u64 })
            + (self.size as u64 % 0x8) * 0x2
            + (if self.toggle { 1u64 } else { 0u64 }) * 0x10
            + (self.command as u64 % 0x8) * 0x20
    }

    /// the struct whose bits read as the integer `raw`
    pub fn from_bits(raw: u64) -> (r: Self)
        requires
            raw < 0x100,
        ensures
            r == Self::from_raw(raw as nat),
            r.wf(),
    {
        SdoSegmentHeader {
            more: (raw % 0x2) == 1,
            size: (raw / 0x2 % 0x8) as u8,
            toggle: (raw / 0x10 % 0x2) == 1,
            command: (raw / 0x20 % 0x8) as u8,
        }
    }
}

impl PduData for SdoSegmentHeader {
    const ID: TypeId = TypeId::CUSTOM;
    type Packed = [u8; 1];

    open spec fn pack_defined(len: nat, bitoffset: u8, bitsize: usize, bitordering: Endianness) -> bool {
        true
    }

    open spec fn spec_pack_slice(
        &self,
        data: Seq<u8>,
        bitoffset: u8,
        bitsize: usize,
        bitordering: Endianness,
    ) -> PackingResult<Seq<u8>> {
        bits_pack_slice_result(self.raw(), 1, data, bitoffset, bitsize)
    }

    open spec fn unpack_defined(len: nat, bitoffset: u8, bitsize: usize, bitordering: Endianness) -> bool {
        true
    }

    open spec fn spec_unpack_slice(
        src: Seq<u8>,
        bitoffset: u8,
        bitsize: usize,
        bitordering: Endianness,
    ) -> PackingResult<Self> {
        match bits_unpack_slice_result(src, 1, bitoffset, bitsize) {
            Ok(v) => Ok(Self::from_raw(v)),
            Err(e) => Err(e),
        }
    }

    open spec fn pack_whole_defined(len: nat) -> bool {
        true
    }

    open spec fn spec_pack(&self, data: Seq<u8>) -> PackingResult<Seq<u8>> {
        bits_pack_result(self.raw(), 1, data)
    }

    open spec fn unpack_whole_defined(len: nat) -> bool {
        true
    }

    open spec fn spec_unpack(src: Seq<u8>) -> PackingResult<Self> {
        match bits_unpack_result(src, 1) {
            Ok(v) => Ok(Self::from_raw(v)),
            Err(e) => Err(e),
        }
    }

    fn pack(&self, data: &mut [u8]) -> (r: PackingResult<()>) {
        proof {
            lemma2_to64();
        }
        pack_bits(self.to_bits(), 1, data)
    }

    fn unpack(src: &[u8]) -> (r: PackingResult<Self>) {
        proof {
            lemma2_to64();
            lemma2_to64_rest();
        }
        match unpack_bits(src, 1) {
            Ok(v) => Ok(Self::from_bits(v)),
            Err(e) => Err(e),
        }
    }

    fn pack_slice(
        &self,
        data: &mut [u8],
        bitoffset: u8,
        bitsize: usize,
        bitordering: Endianness,
    ) -> (r: PackingResult<()>) {
        if bitoffset != 0 {
            return Err(PackingError::BadAlignment(bitoffset as usize, "Bit offset must be at 0 on this implementation"));
        }
        if bitsize != 0 {
            return Err(PackingError::BadSize(bitsize, "Bit size must be at 0 on this implementation"));
        }
        self.pack(data)
    }

    fn unpack_slice(src: &[u8], bitoffset: u8, bitsize: usize, bitordering: Endianness) -> (r: PackingResult<Self>) {
        if bitoffset != 0 {
            return Err(PackingError::BadAlignment(bitoffset as usize, "Bit offset must be at 0 on this implementation"));
        }
        if bitsize != 0 {
            return Err(PackingError::BadSize(bitsize, "Bit size must be at 0 on this implementation"));
        }
        Self::unpack(src)
    }
}

/// The bits of a [SdoSegmentHeader] whose fields fit in their widths, read back as a struct, give the
/// same struct; and any integer of its width, turned into a struct and back, is unchanged.
pub proof fn law_sdo_segment_header_bits_roundtrip(h: SdoSegmentHeader, raw: nat)
    ensures
        h.wf() ==> SdoSegmentHeader::from_raw(h.raw()) == h,
        raw < 0x100 ==> SdoSegmentHeader::from_raw(raw).raw() == raw,
{
    let x_more: u64 = (if h.more { 1u64 } else { 0u64 });
    let x_size: u64 = (h.size as u64);
    let x_toggle: u64 = (if h.toggle { 1u64 } else { 0u64 });
    let x_command: u64 = (h.command as u64);
    let v: u64 = (x_more + x_size * 0x2 + x_toggle * 0x10 + x_command * 0x20) as u64;
    let r: u64 = raw as u64;
    assert({
        &&& !(v == x_more + x_size * 0x2 + x_toggle * 0x10 + x_command * 0x20 && x_more < 0x2 && x_size < 0x8 && x_toggle < 0x2 && x_command < 0x8) || (v % 0x2 == x_more && v / 0x2 % 0x8 == x_size && v / 0x10 % 0x2 == x_toggle && v / 0x20 % 0x8 == x_command)
        &&& !(r < 0x100) || ((r % 0x2) + (r / 0x2 % 0x8) * 0x2 + (r / 0x10 % 0x2) * 0x10 + (r / 0x20 % 0x8) * 0x20 == r)
    }) by (bit_vector);
    if h.wf() {
        assert(h.raw() == x_more + x_size * 0x2 + x_toggle * 0x10 + x_command * 0x20);
    }
}
/// request operation to perform with an SDO in CoE
///
/// ETG.1000.6 5.6.2.1-7
#[derive(Copy, Clone, Debug, PartialEq, Eq, Structural)]
pub enum SdoCommandRequest {
    Download,
    DownloadSegment,
    Upload,
    UploadSegment,
    Abort,
}

/// code of a [SdoCommandRequest] on the wire
pub open spec fn sdo_command_request_code(v: SdoCommandRequest) -> u8 {
    match v {
        SdoCommandRequest::Download => 0x1,
        SdoCommandRequest::DownloadSegment => 0x0,
        SdoCommandRequest::Upload => 0x2,
        SdoCommandRequest::UploadSegment => 0x3,
        SdoCommandRequest::Abort => 0x4,
    }
}

/// the [SdoCommandRequest] of a code on the wire, if any
pub open spec fn sdo_command_request_of_code(code: u8) -> Option<SdoCommandRequest> {
    match code {
        0x1 => Some(SdoCommandRequest::Download),
        0x0 => Some(SdoCommandRequest::DownloadSegment),
        0x2 => Some(SdoCommandRequest::Upload),
        0x3 => Some(SdoCommandRequest::UploadSegment),
        0x4 => Some(SdoCommandRequest::Abort),
        _ => None,
    }
}

impl SdoCommandRequest {
    /// code on the wire
    pub fn code(self) -> (r: u8)
        ensures
            r == sdo_command_request_code(self),
    {
        match self {
            SdoCommandRequest::Download => 0x1,
            SdoCommandRequest::DownloadSegment => 0x0,
            SdoCommandRequest::Upload => 0x2,
            SdoCommandRequest::UploadSegment => 0x3,
            SdoCommandRequest::Abort => 0x4,
        }
    }

    /// the variant of a code on the wire, if any
    pub fn from_code(code: u8) -> (r: Option<Self>)
        ensures
            r == sdo_command_request_of_code(code),
    {
        match code {
            0x1 => Some(SdoCommandRequest::Download),
            0x0 => Some(SdoCommandRequest::DownloadSegment),
            0x2 => Some(SdoCommandRequest::Upload),
            0x3 => Some(SdoCommandRequest::UploadSegment),
            0x4 => Some(SdoCommandRequest::Abort),
            _ => None,
        }
    }
}

/// Decoding the code of a [SdoCommandRequest] gives back the same variant.
pub proof fn law_sdo_command_request_code_roundtrip(v: SdoCommandRequest)
    ensures
        sdo_command_request_of_code(sdo_command_request_code(v)) == Some(v),
{
}
/// response operation to perform with an SDO in CoE
///
/// ETG.1000.6 5.6.2.1-7
#[derive(Copy, Clone, Debug, PartialEq, Eq, Structural)]
pub enum SdoCommandResponse {
    Download,
    DownloadSegment,
    Upload,
    UploadSegment,
    Abort,
}

/// code of a [SdoCommandResponse] on the wire
pub open spec fn sdo_command_response_code(v: SdoCommandResponse) -> u8 {
    match v {
        SdoCommandResponse::Download => 0x3,
        SdoCommandResponse::DownloadSegment => 0x1,
        SdoCommandResponse::Upload => 0x2,
        SdoCommandResponse::UploadSegment => 0x0,
        SdoCommandResponse::Abort => 0x4,
    }
}

/// the [SdoCommandResponse] of a code on the wire, if any
pub open spec fn sdo_command_response_of_code(code: u8) -> Option<SdoCommandResponse> {
    match code {
        0x3 => Some(SdoCommandResponse::Download),
        0x1 => Some(SdoCommandResponse::DownloadSegment),
        0x2 => Some(SdoCommandResponse::Upload),
        0x0 => Some(SdoCommandResponse::UploadSegment),
        0x4 => Some(SdoCommandResponse::Abort),
        _ => None,
    }
}

impl SdoCommandResponse {
    /// code on the wire
    pub fn code(self) -> (r: u8)
        ensures
            r == sdo_command_response_code(self),
    {
        match self {
            SdoCommandResponse::Download => 0x3,
            SdoCommandResponse::DownloadSegment => 0x1,
            SdoCommandResponse::Upload => 0x2,
            SdoCommandResponse::UploadSegment => 0x0,
            SdoCommandResponse::Abort => 0x4,
        }
    }

    /// the variant of a code on the wire, if any
    pub fn from_code(code: u8) -> (r: Option<Self>)
        ensures
            r == sdo_command_response_of_code(code),
    {
        match code {
            0x3 => Some(SdoCommandResponse::Download),
            0x1 => Some(SdoCommandResponse::DownloadSegment),
            0x2 => Some(SdoCommandResponse::Upload),
            0x0 => Some(SdoCommandResponse::UploadSegment),
            0x4 => Some(SdoCommandResponse::Abort),
            _ => None,
        }
    }
}

/// Decoding the code of a [SdoCommandResponse] gives back the same variant.
pub proof fn law_sdo_command_response_code_roundtrip(v: SdoCommandResponse)
    ensures
        sdo_command_response_of_code(sdo_command_response_code(v)) == Some(v),
{
}
/// reason of an SDO transfer abort
#[derive(Copy, Clone, Debug, PartialEq, Eq, Structural)]
pub enum SdoAbortCode {
    /// Toggle bit not changed
    BadToggle,
    /// SDO protocol timeout
    Timeout,
    /// Client/Server command specifier not valid or unknown
    UnsupportedCommand,
    /// Out of memory
    OufOfMemory,
    /// Unsupported access to an object
    UnsupportedAccess,
    /// Attempt to read to a write only object
    WriteOnly,
    /// Attempt to write to a read only object
    ReadOnly,
    /// Subindex cannot be written, SI0 must be 0 for write access
    WriteError,
    /// SDO Complete access not supported for objects of variable length
    VariableLength,
    /// Object length exceeds mailbox size
    ObjectTooBig,
    /// Object mapped to RxPDO, SDO Download blocked
    LockedByPdo,
    /// The object does not exist in the object directory
    InvalidIndex,
    /// The object can not be mapped into the PDO
    CannotMap,
    /// The number and length of the objects to be mapped would exceed the PDO length
    PdoTooSmall,
    /// General parameter incompatibility reason
    IncompatibleParameter,
    /// General internal incompatibility in the device
    IncompatibleDevice,
    /// Access failed due to a hardware error
    HardwareError,
    /// Data type does not match, length of service parameter does not match
    InvalidLength,
    /// Data type does not match, length of service parameter too high
    ServiceTooBig,
    /// Data type does not match, length of service parameter too low
    ServiceTooSmall,
    /// Subindex does not exist
    InvalidSubIndex,
    /// Value range of parameter exceeded (only for write access)
    ValueOutOfRange,
    /// Value of parameter written too high
    ValueTooHigh,
    /// Value of parameter written too low
    ValueTooLow,
    /// Maximum value is less than minimum value
    InvalidRange,
    /// General error
    GeneralError,
    /// Data cannot be transferred or stored to the application
    Refused,
    /// Data cannot be transferred or stored to the application because of local control
    ApplicationRefused,
    /// Data cannot be transferred or stored to the application because of the present device state
    StateRefused,
    /// Object dictionary dynamic generation fails or no object dictionary is present
    DictionnaryEmpty,
}

/// code of a [SdoAbortCode] on the wire
pub open spec fn sdo_abort_code_code(v: SdoAbortCode) -> u32 {
    match v {
        SdoAbortCode::BadToggle => 0x05_03_00_00,
        SdoAbortCode::Timeout => 0x05_04_00_00,
        SdoAbortCode::UnsupportedCommand => 0x05_04_00_01,
        SdoAbortCode::OufOfMemory => 0x05_04_00_05,
        SdoAbortCode::UnsupportedAccess => 0x06_01_00_00,
        SdoAbortCode::WriteOnly => 0x06_01_00_01,
        SdoAbortCode::ReadOnly => 0x06_01_00_02,
        SdoAbortCode::WriteError => 0x06_01_00_03,
        SdoAbortCode::VariableLength => 0x06_01_00_04,
        SdoAbortCode::ObjectTooBig => 0x06_01_00_05,
        SdoAbortCode::LockedByPdo => 0x06_01_00_06,
        SdoAbortCode::InvalidIndex => 0x06_02_00_00,
        SdoAbortCode::CannotMap => 0x06_04_00_41,
        SdoAbortCode::PdoTooSmall => 0x06_04_00_42,
        SdoAbortCode::IncompatibleParameter => 0x06_04_00_43,
        SdoAbortCode::IncompatibleDevice => 0x06_04_00_47,
        SdoAbortCode::HardwareError => 0x06_06_00_00,
        SdoAbortCode::InvalidLength => 0x06_07_00_10,
        SdoAbortCode::ServiceTooBig => 0x06_07_00_12,
        SdoAbortCode::ServiceTooSmall => 0x06_07_00_13,
        SdoAbortCode::InvalidSubIndex => 0x06_09_00_11,
        SdoAbortCode::ValueOutOfRange => 0x06_09_00_30,
        SdoAbortCode::ValueTooHigh => 0x06_09_00_31,
        SdoAbortCode::ValueTooLow => 0x06_09_00_32,
        SdoAbortCode::InvalidRange => 0x06_09_00_36,
        SdoAbortCode::GeneralError => 0x08_00_00_00,
        SdoAbortCode::Refused => 0x08_00_00_20,
        SdoAbortCode::ApplicationRefused => 0x08_00_00_21,
        SdoAbortCode::StateRefused => 0x08_00_00_22,
        SdoAbortCode::DictionnaryEmpty => 0x08_00_00_23,
    }
}

/// the [SdoAbortCode] of a code on the wire, if any
pub open spec fn sdo_abort_code_of_code(code: u32) -> Option<SdoAbortCode> {
    match code {
        0x05_03_00_00 => Some(SdoAbortCode::BadToggle),
        0x05_04_00_00 => Some(SdoAbortCode::Timeout),
        0x05_04_00_01 => Some(SdoAbortCode::UnsupportedCommand),
        0x05_04_00_05 => Some(SdoAbortCode::OufOfMemory),
        0x06_01_00_00 => Some(SdoAbortCode::UnsupportedAccess),
        0x06_01_00_01 => Some(SdoAbortCode::WriteOnly),
        0x06_01_00_02 => Some(SdoAbortCode::ReadOnly),
        0x06_01_00_03 => Some(SdoAbortCode::WriteError),
        0x06_01_00_04 => Some(SdoAbortCode::VariableLength),
        0x06_01_00_05 => Some(SdoAbortCode::ObjectTooBig),
        0x06_01_00_06 => Some(SdoAbortCode::LockedByPdo),
        0x06_02_00_00 => Some(SdoAbortCode::InvalidIndex),
        0x06_04_00_41 => Some(SdoAbortCode::CannotMap),
        0x06_04_00_42 => Some(SdoAbortCode::PdoTooSmall),
        0x06_04_00_43 => Some(SdoAbortCode::IncompatibleParameter),
        0x06_04_00_47 => Some(SdoAbortCode::IncompatibleDevice),
        0x06_06_00_00 => Some(SdoAbortCode::HardwareError),
        0x06_07_00_10 => Some(SdoAbortCode::InvalidLength),
        0x06_07_00_12 => Some(SdoAbortCode::ServiceTooBig),
        0x06_07_00_13 => Some(SdoAbortCode::ServiceTooSmall),
        0x06_09_00_11 => Some(SdoAbortCode::InvalidSubIndex),
        0x06_09_00_30 => Some(SdoAbortCode::ValueOutOfRange),
        0x06_09_00_31 => Some(SdoAbortCode::ValueTooHigh),
        0x06_09_00_32 => Some(SdoAbortCode::ValueTooLow),
        0x06_09_00_36 => Some(SdoAbortCode::InvalidRange),
        0x08_00_00_00 => Some(SdoAbortCode::GeneralError),
        0x08_00_00_20 => Some(SdoAbortCode::Refused),
        0x08_00_00_21 => Some(SdoAbortCode::ApplicationRefused),
        0x08_00_00_22 => Some(SdoAbortCode::StateRefused),
        0x08_00_00_23 => Some(SdoAbortCode::DictionnaryEmpty),
        _ => None,
    }
}

impl SdoAbortCode {
    /// code on the wire
    pub fn code(self) -> (r: u32)
        ensures
            r == sdo_abort_code_code(self),
    {
        match self {
            SdoAbortCode::BadToggle => 0x05_03_00_00,
            SdoAbortCode::Timeout => 0x05_04_00_00,
            SdoAbortCode::UnsupportedCommand => 0x05_04_00_01,
            SdoAbortCode::OufOfMemory => 0x05_04_00_05,
            SdoAbortCode::UnsupportedAccess => 0x06_01_00_00,
            SdoAbortCode::WriteOnly => 0x06_01_00_01,
            SdoAbortCode::ReadOnly => 0x06_01_00_02,
            SdoAbortCode::WriteError => 0x06_01_00_03,
            SdoAbortCode::VariableLength => 0x06_01_00_04,
            SdoAbortCode::ObjectTooBig => 0x06_01_00_05,
            SdoAbortCode::LockedByPdo => 0x06_01_00_06,
            SdoAbortCode::InvalidIndex => 0x06_02_00_00,
            SdoAbortCode::CannotMap => 0x06_04_00_41,
            SdoAbortCode::PdoTooSmall => 0x06_04_00_42,
            SdoAbortCode::IncompatibleParameter => 0x06_04_00_43,
            SdoAbortCode::IncompatibleDevice => 0x06_04_00_47,
            SdoAbortCode::HardwareError => 0x06_06_00_00,
            SdoAbortCode::InvalidLength => 0x06_07_00_10,
            SdoAbortCode::ServiceTooBig => 0x06_07_00_12,
            SdoAbortCode::ServiceTooSmall => 0x06_07_00_13,
            SdoAbortCode::InvalidSubIndex => 0x06_09_00_11,
            SdoAbortCode::ValueOutOfRange => 0x06_09_00_30,
            SdoAbortCode::ValueTooHigh => 0x06_09_00_31,
            SdoAbortCode::ValueTooLow => 0x06_09_00_32,
            SdoAbortCode::InvalidRange => 0x06_09_00_36,
            SdoAbortCode::GeneralError => 0x08_00_00_00,
            SdoAbortCode::Refused => 0x08_00_00_20,
            SdoAbortCode::ApplicationRefused => 0x08_00_00_21,
            SdoAbortCode::StateRefused => 0x08_00_00_22,
            SdoAbortCode::DictionnaryEmpty => 0x08_00_00_23,
        }
    }

    /// the variant of a code on the wire, if any
    pub fn from_code(code: u32) -> (r: Option<Self>)
        ensures
            r == sdo_abort_code_of_code(code),
    {
        match code {
            0x05_03_00_00 => Some(SdoAbortCode::BadToggle),
            0x05_04_00_00 => Some(SdoAbortCode::Timeout),
            0x05_04_00_01 => Some(SdoAbortCode::UnsupportedCommand),
            0x05_04_00_05 => Some(SdoAbortCode::OufOfMemory),
            0x06_01_00_00 => Some(SdoAbortCode::UnsupportedAccess),
            0x06_01_00_01 => Some(SdoAbortCode::WriteOnly),
            0x06_01_00_02 => Some(SdoAbortCode::ReadOnly),
            0x06_01_00_03 => Some(SdoAbortCode::WriteError),
            0x06_01_00_04 => Some(SdoAbortCode::VariableLength),
            0x06_01_00_05 => Some(SdoAbortCode::ObjectTooBig),
            0x06_01_00_06 => Some(SdoAbortCode::LockedByPdo),
            0x06_02_00_00 => Some(SdoAbortCode::InvalidIndex),
            0x06_04_00_41 => Some(SdoAbortCode::CannotMap),
            0x06_04_00_42 => Some(SdoAbortCode::PdoTooSmall),
            0x06_04_00_43 => Some(SdoAbortCode::IncompatibleParameter),
            0x06_04_00_47 => Some(SdoAbortCode::IncompatibleDevice),
            0x06_06_00_00 => Some(SdoAbortCode::HardwareError),
            0x06_07_00_10 => Some(SdoAbortCode::InvalidLength),
            0x06_07_00_12 => Some(SdoAbortCode::ServiceTooBig),
            0x06_07_00_13 => Some(SdoAbortCode::ServiceTooSmall),
            0x06_09_00_11 => Some(SdoAbortCode::InvalidSubIndex),
            0x06_09_00_30 => Some(SdoAbortCode::ValueOutOfRange),
            0x06_09_00_31 => Some(SdoAbortCode::ValueTooHigh),
            0x06_09_00_32 => Some(SdoAbortCode::ValueTooLow),
            0x06_09_00_36 => Some(SdoAbortCode::InvalidRange),
            0x08_00_00_00 => Some(SdoAbortCode::GeneralError),
            0x08_00_00_20 => Some(SdoAbortCode::Refused),
            0x08_00_00_21 => Some(SdoAbortCode::ApplicationRefused),
            0x08_00_00_22 => Some(SdoAbortCode::StateRefused),
            0x08_00_00_23 => Some(SdoAbortCode::DictionnaryEmpty),
            _ => None,
        }
    }
}

/// Decoding the code of a [SdoAbortCode] gives back the same variant.
pub proof fn law_sdo_abort_code_code_roundtrip(v: SdoAbortCode)
    ensures
        sdo_abort_code_of_code(sdo_abort_code_code(v)) == Some(v),
{
}
impl SdoAbortCode {
    /// the abort concerns the accessed object
    pub fn object_related(self) -> (r: bool)
        ensures
            r == (sdo_abort_code_code(self) / 0x1000000 == 0x06),
    {
        self.code() / 0x1000000 == 0x06
    }

    /// the abort concerns the accessed subitem
    pub fn subitem_related(self) -> (r: bool)
        ensures
            r == (sdo_abort_code_code(self) / 0x10000 == 0x0609),
    {
        self.code() / 0x10000 == 0x0609
    }

    /// the abort concerns the PDO mapping
    pub fn mapping_related(self) -> (r: bool)
        ensures
            r == (sdo_abort_code_code(self) / 0x10000 == 0x0604),
    {
        self.code() / 0x10000 == 0x0604
    }

    /// the abort concerns the device
    pub fn device_related(self) -> (r: bool)
        ensures
            r == (sdo_abort_code_code(self) / 0x1000000 == 0x08),
    {
        self.code() / 0x1000000 == 0x08
    }

    /// the abort concerns the SDO protocol
    pub fn protocol_related(self) -> (r: bool)
        ensures
            r == (sdo_abort_code_code(self) / 0x1000000 == 0x05),
    {
        self.code() / 0x1000000 == 0x05
    }
}

/// error type returned by the CoE functions
#[derive(Copy, Clone, Debug, PartialEq, Eq, Structural)]
pub enum CanError {
    /// error reported by the mailbox
    Mailbox(MailboxError),
    /// abort of an SDO transfer reported by the slave
    Sdo(SdoAbortCode),
}

impl From<MailboxError> for CanError {
    fn from(src: MailboxError) -> (r: Self) {
        CanError::Mailbox(src)
    }
}

impl vstd::std_specs::convert::FromSpecImpl<MailboxError> for CanError {
    open spec fn obeys_from_spec() -> bool {
        true
    }

    open spec fn from_spec(src: MailboxError) -> Self {
        CanError::Mailbox(src)
    }
}

/// bytes of a CoE header for the given service
pub open spec fn coe_bytes(service: CanService) -> Seq<u8> {
    le_bytes((CoeHeader { number: 0, reserved: 0, service: can_service_code(service) }).raw(), 2)
}

/// bytes of an SDO header
pub open spec fn sdo_bytes(header: SdoHeader) -> Seq<u8> {
    le_bytes(header.raw(), 4)
}

/// bytes of an SDO segment header
pub open spec fn segment_bytes(header: SdoSegmentHeader) -> Seq<u8> {
    le_bytes(header.raw(), 1)
}

/// `n` zero bytes
pub open spec fn zeros(n: nat) -> Seq<u8> {
    Seq::new(n, |i: int| 0u8)
}

fn push_coe(frame: &mut Vec<u8>, service: CanService)
    ensures
        final(frame)@ == old(frame)@ + coe_bytes(service),
{
    let header = CoeHeader { number: 0, reserved: 0, service: service.code() };
    let mut bytes = crate::numbers::le_bytes_of(header.to_bits(), 2);
    frame.append(&mut bytes);
}

fn push_sdo(frame: &mut Vec<u8>, header: SdoHeader)
    ensures
        final(frame)@ == old(frame)@ + sdo_bytes(header),
{
    let mut bytes = crate::numbers::le_bytes_of(header.to_bits(), 4);
    frame.append(&mut bytes);
}

fn push_segment(frame: &mut Vec<u8>, header: SdoSegmentHeader)
    ensures
        final(frame)@ == old(frame)@ + segment_bytes(header),
{
    let mut bytes = crate::numbers::le_bytes_of(header.to_bits(), 1);
    frame.append(&mut bytes);
}

fn push_bytes(frame: &mut Vec<u8>, data: &[u8])
    ensures
        final(frame)@ == old(frame)@ + data@,
{
    let ghost f0 = frame@;
    let mut i: usize = 0;
    while i < data.len()
        invariant
            i <= data@.len(),
            frame@ == f0 + data@.subrange(0, i as int),
        decreases data@.len() - i,
    {
        frame.push(data[i]);
        i = i + 1;
    }
    proof {
        assert(data@.subrange(0, data@.len() as int) =~= data@);
    }
}

fn push_zeros(frame: &mut Vec<u8>, n: usize)
    ensures
        final(frame)@ == old(frame)@ + zeros(n as nat),
{
    let ghost f0 = frame@;
    let mut i: usize = 0;
    while i < n
        invariant
            i <= n,
            frame@ == f0 + zeros(i as nat),
        decreases n - i,
    {
        frame.push(0);
        i = i + 1;
        proof {
            assert(frame@ =~= f0 + zeros(i as nat));
        }
    }
}

/// the request for reading an SDO, or a complete SDO
pub fn upload_request(index: u16, complete: bool, sub: u8) -> (r: Vec<u8>)
    ensures
        r@ == coe_bytes(CanService::SdoRequest) + sdo_bytes(
            SdoHeader {
                sized: false,
                expedited: false,
                size: 0,
                complete,
                command: sdo_command_request_code(SdoCommandRequest::Upload),
                index,
                sub,
            },
        ) + zeros(4),
{
    let mut frame: Vec<u8> = Vec::new();
    push_coe(&mut frame, CanService::SdoRequest);
    push_sdo(
        &mut frame,
        SdoHeader { sized: false, expedited: false, size: 0, complete, command: SdoCommandRequest::Upload.code(), index, sub },
    );
    push_zeros(&mut frame, 4);
    proof {
        assert(frame@ =~= Seq::<u8>::empty() + coe_bytes(CanService::SdoRequest) + sdo_bytes(
            SdoHeader {
                sized: false,
                expedited: false,
                size: 0,
                complete,
                command: sdo_command_request_code(SdoCommandRequest::Upload),
                index,
                sub,
            },
        ) + zeros(4));
    }
    frame
}

/// the request for reading the next segment of an SDO
pub fn upload_segment_request(toggle: bool) -> (r: Vec<u8>)
    ensures
        r@ == coe_bytes(CanService::SdoRequest) + segment_bytes(
            SdoSegmentHeader { more: false, size: 0, toggle, command: sdo_command_request_code(SdoCommandRequest::UploadSegment) },
        ) + zeros(7),
{
    let mut frame: Vec<u8> = Vec::new();
    push_coe(&mut frame, CanService::SdoRequest);
    push_segment(&mut frame, SdoSegmentHeader { more: false, size: 0, toggle, command: SdoCommandRequest::UploadSegment.code() });
    push_zeros(&mut frame, 7);
    proof {
        assert(frame@ =~= Seq::<u8>::empty() + coe_bytes(CanService::SdoRequest) + segment_bytes(
            SdoSegmentHeader { more: false, size: 0, toggle, command: sdo_command_request_code(SdoCommandRequest::UploadSegment) },
        ) + zeros(7));
    }
    frame
}

/// size of the first segment of data sent with a download request of `len` bytes
pub open spec fn first_segment(len: nat) -> nat {
    if len <= EXPEDITED_MAX_SIZE {
        len
    } else if len < SDO_DOWNLOAD_MAX_SIZE {
        len
    } else {
        SDO_DOWNLOAD_MAX_SIZE as nat
    }
}

/// size of the first segment of data sent with a download request of `len` bytes
pub fn first_segment_len(len: usize) -> (r: usize)
    ensures
        r == first_segment(len as nat),
{
    if len <= EXPEDITED_MAX_SIZE {
        len
    } else if len < SDO_DOWNLOAD_MAX_SIZE {
        len
    } else {
        SDO_DOWNLOAD_MAX_SIZE
    }
}

/**
    the request for writing an SDO with the given data, or the start of it

    data fitting in 4 bytes is sent expedited, in the request itself. Bigger data starts with its total size,
    then as many bytes as fit in a segment; the rest has to be sent in segments
*/
pub fn download_request(index: u16, complete: bool, sub: u8, data: &[u8]) -> (r: Vec<u8>)
    requires
        data@.len() <= u32::MAX,
    ensures
        data@.len() <= EXPEDITED_MAX_SIZE ==> r@ == coe_bytes(CanService::SdoRequest) + sdo_bytes(
            SdoHeader {
                sized: true,
                expedited: true,
                size: (EXPEDITED_MAX_SIZE - data@.len()) as u8,
                complete,
                command: sdo_command_request_code(SdoCommandRequest::Download),
                index,
                sub,
            },
        ) + data@ + zeros((EXPEDITED_MAX_SIZE - data@.len()) as nat),
        data@.len() > EXPEDITED_MAX_SIZE ==> r@ == coe_bytes(CanService::SdoRequest) + sdo_bytes(
            SdoHeader {
                sized: true,
                expedited: false,
                size: 0,
                complete,
                command: sdo_command_request_code(SdoCommandRequest::Download),
                index,
                sub,
            },
        ) + le_bytes(data@.len(), 4) + data@.subrange(0, first_segment(data@.len()) as int),
        r@.len() <= MAILBOX_MAX_SIZE - MAILBOX_HEADER_SIZE,
{
    let mut frame: Vec<u8> = Vec::new();
    push_coe(&mut frame, CanService::SdoRequest);
    if data.len() <= EXPEDITED_MAX_SIZE {
        let header = SdoHeader {
            sized: true,
            expedited: true,
            size: (EXPEDITED_MAX_SIZE - data.len()) as u8,
            complete,
            command: SdoCommandRequest::Download.code(),
            index,
            sub,
        };
        push_sdo(&mut frame, header);
        push_bytes(&mut frame, data);
        push_zeros(&mut frame, EXPEDITED_MAX_SIZE - data.len());
        proof {
            assert(frame@ =~= coe_bytes(CanService::SdoRequest) + sdo_bytes(header) + data@ + zeros(
                (EXPEDITED_MAX_SIZE - data@.len()) as nat,
            ));
            crate::numbers::lemma_le_bytes_len((CoeHeader { number: 0, reserved: 0, service: can_service_code(CanService::SdoRequest) }).raw(), 2);
            crate::numbers::lemma_le_bytes_len(header.raw(), 4);
        }
    } else {
        let header = SdoHeader {
            sized: true,
            expedited: false,
            size: 0,
            complete,
            command: SdoCommandRequest::Download.code(),
            index,
            sub,
        };
        push_sdo(&mut frame, header);
        let mut total = crate::numbers::le_bytes_of(data.len() as u64, 4);
        frame.append(&mut total);
        let segment = if data.len() < SDO_DOWNLOAD_MAX_SIZE { data.len() } else { SDO_DOWNLOAD_MAX_SIZE };
        push_bytes(&mut frame, vstd::slice::slice_subrange(data, 0, segment));
        proof {
            assert(frame@ =~= coe_bytes(CanService::SdoRequest) + sdo_bytes(header) + le_bytes(data@.len(), 4)
                + data@.subrange(0, first_segment(data@.len()) as int));
            crate::numbers::lemma_le_bytes_len((CoeHeader { number: 0, reserved: 0, service: can_service_code(CanService::SdoRequest) }).raw(), 2);
            crate::numbers::lemma_le_bytes_len(header.raw(), 4);
            crate::numbers::lemma_le_bytes_len(data@.len(), 4);
        }
    }
    frame
}

/// the request for writing a segment of an SDO: the following segment always announces more segments to come
pub fn download_segment_request(toggle: bool, segment: &[u8]) -> (r: Vec<u8>)
    ensures
        r@ == coe_bytes(CanService::SdoRequest) + segment_bytes(
            SdoSegmentHeader { more: true, size: 0, toggle, command: sdo_command_request_code(SdoCommandRequest::DownloadSegment) },
        ) + segment@,
        segment@.len() <= SDO_SEGMENT_MAX_SIZE ==> r@.len() <= MAILBOX_MAX_SIZE - MAILBOX_HEADER_SIZE,
{
    let mut frame: Vec<u8> = Vec::new();
    push_coe(&mut frame, CanService::SdoRequest);
    push_segment(&mut frame, SdoSegmentHeader { more: true, size: 0, toggle, command: SdoCommandRequest::DownloadSegment.code() });
    push_bytes(&mut frame, segment);
    proof {
        assert(frame@ =~= coe_bytes(CanService::SdoRequest) + segment_bytes(
            SdoSegmentHeader { more: true, size: 0, toggle, command: sdo_command_request_code(SdoCommandRequest::DownloadSegment) },
        ) + segment@);
        crate::numbers::lemma_le_bytes_len((CoeHeader { number: 0, reserved: 0, service: can_service_code(CanService::SdoRequest) }).raw(), 2);
        crate::numbers::lemma_le_bytes_len(
            (SdoSegmentHeader { more: true, size: 0, toggle, command: sdo_command_request_code(SdoCommandRequest::DownloadSegment) }).raw(), 1);
    }
    frame
}

/// the service of the CoE header at the start of a frame
pub open spec fn frame_service(frame: Seq<u8>) -> u8 {
    CoeHeader::from_raw(le_value(frame.subrange(0, 2))).service
}

/// the SDO header following the CoE header of a frame
pub open spec fn frame_sdo_header(frame: Seq<u8>) -> SdoHeader {
    SdoHeader::from_raw(le_value(frame.subrange(2, 6)))
}

/// the segment header following the CoE header of a frame
pub open spec fn frame_segment_header(frame: Seq<u8>) -> SdoSegmentHeader {
    SdoSegmentHeader::from_raw(le_value(frame.subrange(2, 3)))
}

/// the abort reported after the SDO header of a frame, or the protocol error if it is unknown
pub open spec fn abort_result<T>(frame: Seq<u8>) -> EthercatResult<T, CanError> {
    if frame.len() < 10 {
        Err(EthercatError::Protocol("unable to unpack SDO error code"))
    } else {
        match sdo_abort_code_of_code(le_value(frame.subrange(6, 10)) as u32) {
            Some(code) => Err(EthercatError::Slave(CanError::Sdo(code))),
            None => Err(EthercatError::Protocol("unable to unpack SDO error code")),
        }
    }
}

/// outcome of checking the answer of a slave to an SDO request
pub open spec fn sdo_response_result(
    frame: Seq<u8>,
    expected: SdoCommandResponse,
    index: u16,
    sub: u8,
) -> EthercatResult<SdoHeader, CanError> {
    if frame.len() < 2 {
        Err(EthercatError::Protocol("unable to unpack COE frame header"))
    } else if frame_service(frame) == can_service_code(CanService::SdoResponse) {
        if frame.len() < 6 {
            Err(EthercatError::Protocol("unable to unpack SDO response header"))
        } else if frame_sdo_header(frame).command != sdo_command_response_code(expected) {
            Err(EthercatError::Protocol("slave answered with wrong operation"))
        } else if frame_sdo_header(frame).index != index {
            Err(EthercatError::Protocol("slave answered about wrong item"))
        } else if frame_sdo_header(frame).sub != sub {
            Err(EthercatError::Protocol("slave answered about wrong subitem"))
        } else {
            Ok(frame_sdo_header(frame))
        }
    } else if frame_service(frame) == can_service_code(CanService::SdoRequest) {
        if frame.len() < 6 {
            Err(EthercatError::Protocol("unable to unpack SDO request header"))
        } else if frame_sdo_header(frame).command != sdo_command_request_code(SdoCommandRequest::Abort) {
            Err(EthercatError::Protocol("slave answered a COE request"))
        } else if frame_sdo_header(frame).index != index {
            Err(EthercatError::Protocol("slave answered about wrong item"))
        } else if frame_sdo_header(frame).sub != sub {
            Err(EthercatError::Protocol("slave answered about wrong subitem"))
        } else {
            abort_result(frame)
        }
    } else {
        Err(EthercatError::Protocol("unexpected COE service during SDO operation"))
    }
}

fn read_abort<T>(frame: &[u8]) -> (r: EthercatResult<T, CanError>)
    requires
        frame@.len() >= 6,
    ensures
        r == abort_result::<T>(frame@),
{
    if frame.len() < 10 {
        return Err(EthercatError::Protocol("unable to unpack SDO error code"));
    }
    let code = crate::numbers::le_value_of(vstd::slice::slice_subrange(frame, 6, 10));
    proof {
        crate::numbers::lemma_le_value_bound(frame@.subrange(6, 10));
        lemma2_to64();
    }
    match SdoAbortCode::from_code(code as u32) {
        Some(code) => Err(EthercatError::Slave(CanError::Sdo(code))),
        None => Err(EthercatError::Protocol("unable to unpack SDO error code")),
    }
}

fn read_coe(frame: &[u8]) -> (r: CoeHeader)
    requires
        frame@.len() >= 2,
    ensures
        r.service == frame_service(frame@),
{
    let value = crate::numbers::le_value_of(vstd::slice::slice_subrange(frame, 0, 2));
    proof {
        crate::numbers::lemma_le_value_bound(frame@.subrange(0, 2));
        lemma2_to64();
    }
    CoeHeader::from_bits(value)
}

fn read_sdo_header(frame: &[u8]) -> (r: SdoHeader)
    requires
        frame@.len() >= 6,
    ensures
        r == frame_sdo_header(frame@),
{
    let value = crate::numbers::le_value_of(vstd::slice::slice_subrange(frame, 2, 6));
    proof {
        crate::numbers::lemma_le_value_bound(frame@.subrange(2, 6));
        lemma2_to64();
    }
    SdoHeader::from_bits(value)
}

/**
    check the answer of a slave to an SDO request, read from its mailbox

    the answer must be the expected response about the same item, its data follows the SDO header; an abort
    request from the slave is reported as a slave error
*/
pub fn check_sdo_response(frame: &[u8], expected: SdoCommandResponse, index: u16, sub: u8) -> (r: EthercatResult<SdoHeader, CanError>)
    ensures
        r == sdo_response_result(frame@, expected, index, sub),
{
    if frame.len() < 2 {
        return Err(EthercatError::Protocol("unable to unpack COE frame header"));
    }
    let coe = read_coe(frame);
    if coe.service == CanService::SdoResponse.code() {
        if frame.len() < 6 {
            return Err(EthercatError::Protocol("unable to unpack SDO response header"));
        }
        let header = read_sdo_header(frame);
        if header.command != expected.code() {
            return Err(EthercatError::Protocol("slave answered with wrong operation"));
        }
        if header.index != index {
            return Err(EthercatError::Protocol("slave answered about wrong item"));
        }
        if header.sub != sub {
            return Err(EthercatError::Protocol("slave answered about wrong subitem"));
        }
        Ok(header)
    } else if coe.service == CanService::SdoRequest.code() {
        if frame.len() < 6 {
            return Err(EthercatError::Protocol("unable to unpack SDO request header"));
        }
        let header = read_sdo_header(frame);
        if header.command != SdoCommandRequest::Abort.code() {
            return Err(EthercatError::Protocol("slave answered a COE request"));
        }
        if header.index != index {
            return Err(EthercatError::Protocol("slave answered about wrong item"));
        }
        if header.sub != sub {
            return Err(EthercatError::Protocol("slave answered about wrong subitem"));
        }
        read_abort(frame)
    } else {
        Err(EthercatError::Protocol("unexpected COE service during SDO operation"))
    }
}

/// outcome of checking the answer of a slave to an SDO segment request
pub open spec fn sdo_segment_result(frame: Seq<u8>, expected: SdoCommandResponse, toggle: bool) -> EthercatResult<SdoSegmentHeader, CanError> {
    if frame.len() < 2 {
        Err(EthercatError::Protocol("unable to unpack COE frame header"))
    } else if frame_service(frame) == can_service_code(CanService::SdoResponse) {
        if frame.len() < 3 {
            Err(EthercatError::Protocol("unable to unpack segment response header"))
        } else if frame_segment_header(frame).command != sdo_command_response_code(expected) {
            Err(EthercatError::Protocol("slave answered with a COE request"))
        } else if frame_segment_header(frame).toggle != toggle {
            Err(EthercatError::Protocol("bad toggle bit in segment received"))
        } else {
            Ok(frame_segment_header(frame))
        }
    } else if frame_service(frame) == can_service_code(CanService::SdoRequest) {
        if frame.len() < 6 {
            Err(EthercatError::Protocol("unable to unpack request header"))
        } else if frame_sdo_header(frame).command != sdo_command_request_code(SdoCommandRequest::Abort) {
            Err(EthercatError::Protocol("slave answered a COE request"))
        } else {
            abort_result(frame)
        }
    } else {
        Err(EthercatError::Protocol("unexpected COE service during SDO segment operation"))
    }
}

/**
    check the answer of a slave to an SDO segment request, read from its mailbox

    the answer must be the expected response with the expected toggle bit, its data follows the segment header;
    an abort request from the slave is reported as a slave error
*/
pub fn check_sdo_segment(frame: &[u8], expected: SdoCommandResponse, toggle: bool) -> (r: EthercatResult<SdoSegmentHeader, CanError>)
    ensures
        r == sdo_segment_result(frame@, expected, toggle),
{
    if frame.len() < 2 {
        return Err(EthercatError::Protocol("unable to unpack COE frame header"));
    }
    let coe = read_coe(frame);
    if coe.service == CanService::SdoResponse.code() {
        if frame.len() < 3 {
            return Err(EthercatError::Protocol("unable to unpack segment response header"));
        }
        let value = crate::numbers::le_value_of(vstd::slice::slice_subrange(frame, 2, 3));
        proof {
            crate::numbers::lemma_le_value_bound(frame@.subrange(2, 3));
            lemma2_to64();
        }
        let header = SdoSegmentHeader::from_bits(value);
        if header.command != expected.code() {
            return Err(EthercatError::Protocol("slave answered with a COE request"));
        }
        if header.toggle != toggle {
            return Err(EthercatError::Protocol("bad toggle bit in segment received"));
        }
        Ok(header)
    } else if coe.service == CanService::SdoRequest.code() {
        if frame.len() < 6 {
            return Err(EthercatError::Protocol("unable to unpack request header"));
        }
        let header = read_sdo_header(frame);
        if header.command != SdoCommandRequest::Abort.code() {
            return Err(EthercatError::Protocol("slave answered a COE request"));
        }
        read_abort(frame)
    } else {
        Err(EthercatError::Protocol("unexpected COE service during SDO segment operation"))
    }
}

/// what the first answer to an SDO read request holds of the SDO
#[derive(Copy, Clone, Debug, PartialEq, Eq, Structural)]
pub struct UploadStart {
    /// total size of the SDO
    pub total: usize,
    /// start of the SDO data in the answer
    pub start: usize,
    /// size of the SDO data in the answer
    pub received: usize,
}

/// outcome of reading the first answer to an SDO read request: `rest` is the answer after the SDO header
pub open spec fn upload_start_result(header: SdoHeader, rest: Seq<u8>, capacity: nat) -> EthercatResult<UploadStart, CanError> {
    if !header.sized {
        Err(EthercatError::Protocol("got SDO response without data size"))
    } else if header.expedited {
        let total = (EXPEDITED_MAX_SIZE - header.size as nat) as nat;
        if total > capacity {
            Err(EthercatError::Master("data buffer is too small for requested SDO"))
        } else if rest.len() < total {
            Err(EthercatError::Protocol("inconsistent expedited response data size"))
        } else {
            Ok(UploadStart { total: total as usize, start: 0, received: total as usize })
        }
    } else if rest.len() < 4 {
        Err(EthercatError::Protocol("unable unpack sdo size from SDO response"))
    } else {
        let total = le_value(rest.subrange(0, 4));
        if total > capacity {
            Err(EthercatError::Master("read buffer is too small for requested SDO"))
        } else if rest.len() - 4 > total {
            Err(EthercatError::Protocol("received more data than declared from SDO"))
        } else {
            Ok(UploadStart { total: total as usize, start: 4, received: (rest.len() - 4) as usize })
        }
    }
}

/**
    read the first answer to an SDO read request, to receive into a buffer of `capacity` bytes

    an expedited answer holds the whole data, an other holds the total size of the SDO and its first bytes;
    the rest comes in segments
*/
pub fn upload_start(header: SdoHeader, rest: &[u8], capacity: usize) -> (r: EthercatResult<UploadStart, CanError>)
    requires
        header.wf(),
    ensures
        r == upload_start_result(header, rest@, capacity as nat),
{
    if !header.sized {
        return Err(EthercatError::Protocol("got SDO response without data size"));
    }
    if header.expedited {
        let total = EXPEDITED_MAX_SIZE - header.size as usize;
        if total > capacity {
            return Err(EthercatError::Master("data buffer is too small for requested SDO"));
        }
        if rest.len() < total {
            return Err(EthercatError::Protocol("inconsistent expedited response data size"));
        }
        return Ok(UploadStart { total, start: 0, received: total });
    }
    if rest.len() < 4 {
        return Err(EthercatError::Protocol("unable unpack sdo size from SDO response"));
    }
    let total = crate::numbers::le_value_of(vstd::slice::slice_subrange(rest, 0, 4));
    proof {
        crate::numbers::lemma_le_value_bound(rest@.subrange(0, 4));
        lemma2_to64();
    }
    if total > capacity as u64 {
        return Err(EthercatError::Master("read buffer is too small for requested SDO"));
    }
    if (rest.len() - 4) as u64 > total {
        return Err(EthercatError::Protocol("received more data than declared from SDO"));
    }
    Ok(UploadStart { total: total as usize, start: 4, received: rest.len() - 4 })
}

/// number of bytes of a received segment of `available` bytes taken in, when `remaining` bytes of the SDO are still expected
pub fn segment_take(remaining: usize, available: usize) -> (r: usize)
    ensures
        r == if remaining < available { remaining } else { available },
{
    if remaining < available {
        remaining
    } else {
        available
    }
}

/// Reading an SDO always starts with a request the slave can answer: an upload request of the item, with no data.
pub proof fn law_upload_request_is_a_request(index: u16, complete: bool, sub: u8)
    ensures
        ({
            let header = SdoHeader {
                sized: false,
                expedited: false,
                size: 0,
                complete,
                command: sdo_command_request_code(SdoCommandRequest::Upload),
                index,
                sub,
            };
            SdoHeader::from_raw(header.raw()) == header
        }),
{
    let header = SdoHeader {
        sized: false,
        expedited: false,
        size: 0,
        complete,
        command: sdo_command_request_code(SdoCommandRequest::Upload),
        index,
        sub,
    };
    law_sdo_header_bits_roundtrip(header, 0);
}

/// An answer of the slave about the requested item, carrying the expected command, is accepted and
/// its SDO header given back, whatever follows the header.
pub proof fn law_sdo_response_accepted(expected: SdoCommandResponse, header: SdoHeader, rest: Seq<u8>)
    requires
        header.wf(),
        header.command == sdo_command_response_code(expected),
    ensures
        sdo_response_result(coe_bytes(CanService::SdoResponse) + sdo_bytes(header) + rest, expected, header.index, header.sub)
            == Ok::<SdoHeader, EthercatError<CanError>>(header),
{
    let coe = CoeHeader { number: 0, reserved: 0, service: can_service_code(CanService::SdoResponse) };
    let frame = coe_bytes(CanService::SdoResponse) + sdo_bytes(header) + rest;
    crate::numbers::lemma_le_bytes_len(coe.raw(), 2);
    crate::numbers::lemma_le_bytes_len(header.raw(), 4);
    assert(frame.subrange(0, 2) =~= le_bytes(coe.raw(), 2));
    assert(frame.subrange(2, 6) =~= le_bytes(header.raw(), 4));
    crate::numbers::lemma_le_value_of_bytes(coe.raw(), 2);
    crate::numbers::lemma_le_value_of_bytes(header.raw(), 4);
    lemma2_to64();
    assert(coe.raw() < pow2(16));
    assert(header.raw() < pow2(32));
    vstd::arithmetic::div_mod::lemma_small_mod(coe.raw(), pow2(16));
    vstd::arithmetic::div_mod::lemma_small_mod(header.raw(), pow2(32));
    law_coe_header_bits_roundtrip(coe, 0);
    law_sdo_header_bits_roundtrip(header, 0);
}

/// the segment of data sent after the first `sent` bytes of `len`: its start, its end and its toggle
pub open spec fn next_segment(len: nat, sent: nat, toggle: bool) -> Option<(nat, nat, bool)> {
    if sent >= len {
        None
    } else if len - sent < SDO_SEGMENT_MAX_SIZE {
        Some((sent, len, toggle))
    } else {
        Some((sent, (sent + SDO_SEGMENT_MAX_SIZE) as nat, toggle))
    }
}

/// the segments of data sent after the first `sent` bytes of `len`, the first one with the given toggle
pub open spec fn download_segments(len: nat, sent: nat, toggle: bool) -> Seq<(nat, nat, bool)>
    decreases len - sent,
{
    match next_segment(len, sent, toggle) {
        None => Seq::empty(),
        Some((start, end, t)) => seq![(start, end, t)] + download_segments(len, end, !t),
    }
}

/**
    the next segment to send when downloading `len` bytes of which `sent` are sent, the previous segment having
    the toggle `!toggle`: the bytes from `sent` on that fit a segment, with the toggle `toggle`; none when all is sent
*/
pub fn download_segment_step(len: usize, sent: usize, toggle: bool) -> (r: Option<(usize, usize, bool)>)
    ensures
        match next_segment(len as nat, sent as nat, toggle) {
            Some((start, end, t)) => r == Some((start as usize, end as usize, t)),
            None => r is None,
        },
{
    if sent >= len {
        None
    } else {
        let take = segment_take(len - sent, SDO_SEGMENT_MAX_SIZE);
        Some((sent, sent + take, toggle))
    }
}

/**
    what a received upload segment gives, when `received` bytes of the `total` of the SDO were received and the
    segment was requested with the toggle `toggle`: the number of its `segment_len` bytes taken in, the toggle of the
    next request, and whether the upload is done (no more segment announced, or all bytes received)
*/
pub fn upload_segment_step(total: usize, received: usize, toggle: bool, header: SdoSegmentHeader, segment_len: usize) -> (r: (usize, bool, bool))
    requires
        received < total,
    ensures
        r.0 == if total - received < segment_len { total - received } else { segment_len as int },
        r.1 == !toggle,
        r.2 == (!header.more || received + r.0 >= total),
{
    let take = segment_take(total - received, segment_len);
    (take, !toggle, !header.more || received + take >= total)
}

/**
    The segments of a download cover the data once, in order: each starts where the previous one ended, the first
    where the data of the request ended and the last at the end of the data; none is empty or bigger than a
    segment, and their toggles alternate, starting clear.
*/
pub proof fn law_download_segments_cover(len: nat)
    ensures
        ({
            let first = first_segment(len);
            let segments = download_segments(len, first, false);
            &&& segments.len() > 0 ==> segments[0].0 == first && segments.last().1 == len
            &&& segments.len() == 0 ==> first == len
            &&& forall|k: int| 0 <= k < segments.len() ==> #[trigger] segments[k].0 < segments[k].1
                && segments[k].1 - segments[k].0 <= SDO_SEGMENT_MAX_SIZE
                && segments[k].2 == (k % 2 == 1)
            &&& forall|k: int| 0 <= k < segments.len() - 1 ==> #[trigger] segments[k].1 == segments[k + 1].0
        }),
{
    lemma_download_segments(len, first_segment(len), false);
}

/// the segments from `sent` on cover the data from `sent` to its end
proof fn lemma_download_segments(len: nat, sent: nat, toggle: bool)
    requires
        sent <= len,
    ensures
        ({
            let segments = download_segments(len, sent, toggle);
            &&& segments.len() > 0 ==> segments[0].0 == sent && segments.last().1 == len
            &&& segments.len() == 0 ==> sent == len
            &&& forall|k: int| 0 <= k < segments.len() ==> #[trigger] segments[k].0 < segments[k].1
                && segments[k].1 - segments[k].0 <= SDO_SEGMENT_MAX_SIZE
                && segments[k].2 == (if k % 2 == 0 { toggle } else { !toggle })
            &&& forall|k: int| 0 <= k < segments.len() - 1 ==> #[trigger] segments[k].1 == segments[k + 1].0
        }),
    decreases len - sent,
{
    match next_segment(len, sent, toggle) {
        None => {},
        Some((start, end, t)) => {
            lemma_download_segments(len, end, !t);
            let rest = download_segments(len, end, !t);
            let segments = download_segments(len, sent, toggle);
            assert(segments == seq![(start, end, t)] + rest);
            assert forall|k: int| 0 <= k < segments.len() implies #[trigger] segments[k].0 < segments[k].1
                && segments[k].1 - segments[k].0 <= SDO_SEGMENT_MAX_SIZE
                && segments[k].2 == (if k % 2 == 0 { toggle } else { !toggle }) by {
                if k > 0 {
                    assert(segments[k] == rest[k - 1]);
                }
            }
            assert forall|k: int| 0 <= k < segments.len() - 1 implies #[trigger] segments[k].1 == segments[k + 1].0 by {
                assert(segments[k + 1] == rest[k]);
                if k > 0 {
                    assert(segments[k] == rest[k - 1]);
                }
            }
            if rest.len() > 0 {
                assert(segments.last() == rest.last());
            }
        },
    }
}

} // verus!
