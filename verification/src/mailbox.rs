//! communication with a slave's mailbox: its frame header, and the decisions taken when writing and reading it
use vstd::prelude::*;
use vstd::arithmetic::power2::*;
use vstd::arithmetic::power2::{lemma2_to64, lemma2_to64_rest};
use crate::data::{
    PduData, Storage, TypeId, Endianness, PackingError, PackingResult, Field, bit,
    bits_pack_result, bits_unpack_result, bits_pack_slice_result, bits_unpack_slice_result,
    pack_bits, unpack_bits,
};
use crate::error::{EthercatError, EthercatResult};
use crate::registers::{SyncManagerChannel, sync_mode_code, sync_direction_code, SyncMode, SyncDirection};
use crate::numbers::{le_bytes, le_value};

verus! {

/// arbitrary maximum size for a mailbox buffer
/// the user may select a smaller size, especially if the mailbox is used at the same time as buffered sync managers
pub const MAILBOX_MAX_SIZE: usize = 1024;

/// ETG 1000.4 table 29: protocol of a mailbox frame
#[derive(Copy, Clone, Debug, PartialEq, Eq, Structural)]
pub enum MailboxType {
    Exception,
    Ads,
    Ethernet,
    Can,
    File,
    Servo,
    Specific,
}

/// code of a [MailboxType] on the wire
pub open spec fn mailbox_type_code(v: MailboxType) -> u8 {
    match v {
        MailboxType::Exception => 0x0,
        MailboxType::Ads => 0x1,
        MailboxType::Ethernet => 0x2,
        MailboxType::Can => 0x3,
        MailboxType::File => 0x4,
        MailboxType::Servo => 0x5,
        MailboxType::Specific => 0xf,
    }
}

/// the [MailboxType] of a code on the wire, if any
pub open spec fn mailbox_type_of_code(code: u8) -> Option<MailboxType> {
    match code {
        0x0 => Some(MailboxType::Exception),
        0x1 => Some(MailboxType::Ads),
        0x2 => Some(MailboxType::Ethernet),
        0x3 => Some(MailboxType::Can),
        0x4 => Some(MailboxType::File),
        0x5 => Some(MailboxType::Servo),
        0xf => Some(MailboxType::Specific),
        _ => None,
    }
}

impl MailboxType {
    /// code on the wire
    pub fn code(self) -> (r: u8)
        ensures
            r == mailbox_type_code(self),
    {
        match self {
            MailboxType::Exception => 0x0,
            MailboxType::Ads => 0x1,
            MailboxType::Ethernet => 0x2,
            MailboxType::Can => 0x3,
            MailboxType::File => 0x4,
            MailboxType::Servo => 0x5,
            MailboxType::Specific => 0xf,
        }
    }

    /// the variant of a code on the wire, if any
    pub fn from_code(code: u8) -> (r: Option<Self>)
        ensures
            r == mailbox_type_of_code(code),
    {
        match code {
            0x0 => Some(MailboxType::Exception),
            0x1 => Some(MailboxType::Ads),
            0x2 => Some(MailboxType::Ethernet),
            0x3 => Some(MailboxType::Can),
            0x4 => Some(MailboxType::File),
            0x5 => Some(MailboxType::Servo),
            0xf => Some(MailboxType::Specific),
            _ => None,
        }
    }
}

/// Decoding the code of a [MailboxType] gives back the same variant.
pub proof fn law_mailbox_type_code_roundtrip(v: MailboxType)
    ensures
        mailbox_type_of_code(mailbox_type_code(v)) == Some(v),
{
}
/// ETG 1000.4 table 30: error reported by a slave's mailbox
#[derive(Copy, Clone, Debug, PartialEq, Eq, Structural)]
pub enum MailboxError {
    /// Syntax of 6 octet Mailbox Header is wrong
    Syntax,
    /// The Mailbox protocol is not supported
    UnsupportedProtocol,
    /// Channel Field contains wrong value (a slave can ignore the channel field)
    InvalidChannel,
    /// the service in the Mailbox protocol is not supported
    ServiceNotSupported,
    /// The mailbox protocol header of the mailbox protocol is wrong (without the 6 octet mailbox header)
    InvalidHeader,
    /// length of received mailbox data is too short for slave's expectations
    SizeTooShort,
    /// Mailbox protocol cannot be processed because of limited ressources
    NoMoreMemory,
    /// the length of data is inconsistent
    InvalidSize,
    /// Mailbox service already in use
    ServiceInWork,
}

/// code of a [MailboxError] on the wire
pub open spec fn mailbox_error_code(v: MailboxError) -> u16 {
    match v {
        MailboxError::Syntax => 0x1,
        MailboxError::UnsupportedProtocol => 0x2,
        MailboxError::InvalidChannel => 0x3,
        MailboxError::ServiceNotSupported => 0x4,
        MailboxError::InvalidHeader => 0x5,
        MailboxError::SizeTooShort => 0x6,
        MailboxError::NoMoreMemory => 0x7,
        MailboxError::InvalidSize => 0x8,
        MailboxError::ServiceInWork => 0x9,
    }
}

/// the [MailboxError] of a code on the wire, if any
pub open spec fn mailbox_error_of_code(code: u16) -> Option<MailboxError> {
    match code {
        0x1 => Some(MailboxError::Syntax),
        0x2 => Some(MailboxError::UnsupportedProtocol),
        0x3 => Some(MailboxError::InvalidChannel),
        0x4 => Some(MailboxError::ServiceNotSupported),
        0x5 => Some(MailboxError::InvalidHeader),
        0x6 => Some(MailboxError::SizeTooShort),
        0x7 => Some(MailboxError::NoMoreMemory),
        0x8 => Some(MailboxError::InvalidSize),
        0x9 => Some(MailboxError::ServiceInWork),
        _ => None,
    }
}

impl MailboxError {
    /// code on the wire
    pub fn code(self) -> (r: u16)
        ensures
            r == mailbox_error_code(self),
    {
        match self {
            MailboxError::Syntax => 0x1,
            MailboxError::UnsupportedProtocol => 0x2,
            MailboxError::InvalidChannel => 0x3,
            MailboxError::ServiceNotSupported => 0x4,
            MailboxError::InvalidHeader => 0x5,
            MailboxError::SizeTooShort => 0x6,
            MailboxError::NoMoreMemory => 0x7,
            MailboxError::InvalidSize => 0x8,
            MailboxError::ServiceInWork => 0x9,
        }
    }

    /// the variant of a code on the wire, if any
    pub fn from_code(code: u16) -> (r: Option<Self>)
        ensures
            r == mailbox_error_of_code(code),
    {
        match code {
            0x1 => Some(MailboxError::Syntax),
            0x2 => Some(MailboxError::UnsupportedProtocol),
            0x3 => Some(MailboxError::InvalidChannel),
            0x4 => Some(MailboxError::ServiceNotSupported),
            0x5 => Some(MailboxError::InvalidHeader),
            0x6 => Some(MailboxError::SizeTooShort),
            0x7 => Some(MailboxError::NoMoreMemory),
            0x8 => Some(MailboxError::InvalidSize),
            0x9 => Some(MailboxError::ServiceInWork),
            _ => None,
        }
    }
}

/// Decoding the code of a [MailboxError] gives back the same variant.
pub proof fn law_mailbox_error_code_roundtrip(v: MailboxError)
    ensures
        mailbox_error_of_code(mailbox_error_code(v)) == Some(v),
{
}
/// ETG 1000.4 table 29: header of a mailbox frame
#[derive(Copy, Clone, Debug, PartialEq, Eq, Structural)]
pub struct MailboxHeader {
    /// length of the mailbox service data following this header
    pub length: u16,
    /// if a master is client: Station Address of the source, if a slave is client: Station Address of the destination
    pub address: u16,
    /// reserved for future
    pub channel: u8,
    /// 0 is lowest priority, 3 is highest
    pub priority: u8,
    /// protocol of the frame, a [MailboxType] code
    pub ty: u8,
    /// counter of the mailbox services (0 reserved, this should roll from 1 to 7 and overflow to 1 after 7)
    pub count: u8,
    /// reserved bit
    pub reserved: bool,
}

impl MailboxHeader {
    /// the bits of the struct read as an integer, each field truncated to its width
    pub open spec fn raw(&self) -> nat {
        (self.length as nat % 0x10000)
            + (self.address as nat % 0x10000) * 0x10000
            + (self.channel as nat % 0x40) * 0x100000000
            + (self.priority as nat % 0x4) * 0x4000000000
            + (self.ty as nat % 0x10) * 0x10000000000
            + (self.count as nat % 0x8) * 0x100000000000
            + (if self.reserved { 1nat } else { 0nat }) * 0x800000000000
    }

    /// every field fits in its width
    pub open spec fn wf(&self) -> bool {
        self.channel < 0x40
        && self.priority < 0x4
        && self.ty < 0x10
        && self.count < 0x8
    }

    /// the struct whose bits read as the integer `raw`
    pub open spec fn from_raw(raw: nat) -> Self {
        MailboxHeader {
            length: (raw % 0x10000) as u16,
            address: (raw / 0x10000 % 0x10000) as u16,
            channel: (raw / 0x100000000 % 0x40) as u8,
            priority: (raw / 0x4000000000 % 0x4) as u8,
            ty: (raw / 0x10000000000 % 0x10) as u8,
            count: (raw / 0x100000000000 % 0x8) as u8,
            reserved: (raw / 0x800000000000 % 0x2) == 1,
        }
    }

    /// the bits of the struct read as an integer, each field truncated to its width
    #[verifier::rlimit(60)]
    pub fn to_bits(&self) -> (r: u64)
        ensures
            r == self.raw(),
    {
        let mut r: u64 = (self.length as u64 % 0x10000);
        assert(r < 0x10000);
        r = r + (self.address as u64 % 0x10000) * 0x10000;
        assert(r < 0x100000000);
        r = r + (self.channel as u64 % 0x40) * 0x100000000;
        assert(r < 0x4000000000);
        r = r + (self.priority as u64 % 0x4) * 0x4000000000;
        assert(r < 0x10000000000);
        r = r + (self.ty as u64 % 0x10) * 0x10000000000;
        assert(r < 0x100000000000);
        r = r + (self.count as u64 % 0x8) * 0x100000000000;
        assert(r < 0x800000000000);
        r = r + (if self.reserved { 1u64 } else { 0u64 }) * 0x800000000000;
        r
    }

    /// the struct whose bits read as the integer `raw`
    pub fn from_bits(raw: u64) -> (r: Self)
        requires
            raw < 0x1000000000000,
        ensures
            r == Self::from_raw(raw as nat),
            r.wf(),
    {
        MailboxHeader {
            length: (raw % 0x10000) as u16,
            address: (raw / 0x10000 % 0x10000) as u16,
            channel: (raw / 0x100000000 % 0x40) as u8,
            priority: (raw / 0x4000000000 % 0x4) as u8,
            ty: (raw / 0x10000000000 % 0x10) as u8,
            count: (raw / 0x100000000000 % 0x8) as u8,
            reserved: (raw / 0x800000000000 % 0x2) == 1,
        }
    }
}

impl PduData for MailboxHeader {
    const ID: TypeId = TypeId::CUSTOM;
    type Packed = [u8; 6];

    open spec fn pack_defined(len: nat, bitoffset: u8, bitsize: usize, bitordering: Endianness) -> bool {
        true
    }

    open spec fn spec_pack_slice(
        &self,
        data: Seq<u8>,
        bitoffset: u8,
        bitsize: usize,
        bitordering: Endianness,
    ) -> PackingResult<Seq<u8>> {
        bits_pack_slice_result(self.raw(), 6, data, bitoffset, bitsize)
    }

    open spec fn unpack_defined(len: nat, bitoffset: u8, bitsize: usize, bitordering: Endianness) -> bool {
        true
    }

    open spec fn spec_unpack_slice(
        src: Seq<u8>,
        bitoffset: u8,
        bitsize: usize,
        bitordering: Endianness,
    ) -> PackingResult<Self> {
        match bits_unpack_slice_result(src, 6, bitoffset, bitsize) {
            Ok(v) => Ok(Self::from_raw(v)),
            Err(e) => Err(e),
        }
    }

    open spec fn pack_whole_defined(len: nat) -> bool {
        true
    }

    open spec fn spec_pack(&self, data: Seq<u8>) -> PackingResult<Seq<u8>> {
        bits_pack_result(self.raw(), 6, data)
    }

    open spec fn unpack_whole_defined(len: nat) -> bool {
        true
    }

    open spec fn spec_unpack(src: Seq<u8>) -> PackingResult<Self> {
        match bits_unpack_result(src, 6) {
            Ok(v) => Ok(Self::from_raw(v)),
            Err(e) => Err(e),
        }
    }

    fn pack(&self, data: &mut [u8]) -> (r: PackingResult<()>) {
        proof {
            lemma2_to64();
        }
        pack_bits(self.to_bits(), 6, data)
    }

    fn unpack(src: &[u8]) -> (r: PackingResult<Self>) {
        proof {
            lemma2_to64();
            lemma2_to64_rest();
        }
        match unpack_bits(src, 6) {
            Ok(v) => Ok(Self::from_bits(v)),
            Err(e) => Err(e),
        }
    }

    fn pack_slice(
        &self,
        data: &mut [u8],
        bitoffset: u8,
        bitsize: usize,
        bitordering: Endianness,
    ) -> (r: PackingResult<()>) {
        if bitoffset != 0 {
            return Err(PackingError::BadAlignment(bitoffset as usize, "Bit offset must be at 0 on this implementation"));
        }
        if bitsize != 0 {
            return Err(PackingError::BadSize(bitsize, "Bit size must be at 0 on this implementation"));
        }
        self.pack(data)
    }

    fn unpack_slice(src: &[u8], bitoffset: u8, bitsize: usize, bitordering: Endianness) -> (r: PackingResult<Self>) {
        if bitoffset != 0 {
            return Err(PackingError::BadAlignment(bitoffset as usize, "Bit offset must be at 0 on this implementation"));
        }
        if bitsize != 0 {
            return Err(PackingError::BadSize(bitsize, "Bit size must be at 0 on this implementation"));
        }
        Self::unpack(src)
    }
}

/// The bits of a [MailboxHeader] whose fields fit in their widths, read back as a struct, give the
/// same struct; and any integer of its width, turned into a struct and back, is unchanged.
#[verifier::rlimit(60)]
pub proof fn law_mailbox_header_bits_roundtrip(h: MailboxHeader, raw: nat)
    ensures
        h.wf() ==> MailboxHeader::from_raw(h.raw()) == h,
        raw < 0x1000000000000 ==> MailboxHeader::from_raw(raw).raw() == raw,
{
    let x_length: u64 = (h.length as u64);
    let x_address: u64 = (h.address as u64);
    let x_channel: u64 = (h.channel as u64);
    let x_priority: u64 = (h.priority as u64);
    let x_ty: u64 = (h.ty as u64);
    let x_count: u64 = (h.count as u64);
    let x_reserved: u64 = (if h.reserved { 1u64 } else { 0u64 });
    let v: u64 = (x_length + x_address * 0x10000 + x_channel * 0x100000000 + x_priority * 0x4000000000 + x_ty * 0x10000000000 + x_count * 0x100000000000 + x_reserved * 0x800000000000) as u64;
    let r: u64 = raw as u64;
    assert({
        &&& !(v == x_length + x_address * 0x10000 + x_channel * 0x100000000 + x_priority * 0x4000000000 + x_ty * 0x10000000000 + x_count * 0x100000000000 + x_reserved * 0x800000000000 && x_length < 0x10000 && x_address < 0x10000 && x_channel < 0x40 && x_priority < 0x4 && x_ty < 0x10 && x_count < 0x8 && x_reserved < 0x2) || (v % 0x10000 == x_length && v / 0x10000 % 0x10000 == x_address && v / 0x100000000 % 0x40 == x_channel && v / 0x4000000000 % 0x4 == x_priority && v / 0x10000000000 % 0x10 == x_ty && v / 0x100000000000 % 0x8 == x_count && v / 0x800000000000 % 0x2 == x_reserved)
        &&& !(r < 0x1000000000000) || ((r % 0x10000) + (r / 0x10000 % 0x10000) * 0x10000 + (r / 0x100000000 % 0x40) * 0x100000000 + (r / 0x4000000000 % 0x4) * 0x4000000000 + (r / 0x10000000000 % 0x10) * 0x10000000000 + (r / 0x100000000000 % 0x8) * 0x100000000000 + (r / 0x800000000000 % 0x2) * 0x800000000000 == r)
    }) by (bit_vector);
    if h.wf() {
        assert(h.raw() == x_length + x_address * 0x10000 + x_channel * 0x100000000 + x_priority * 0x4000000000 + x_ty * 0x10000000000 + x_count * 0x100000000000 + x_reserved * 0x800000000000);
    }
}
/// ETG 1000.4 table 30: content of an exception mailbox frame
#[derive(Copy, Clone, Debug, PartialEq, Eq, Structural)]
pub struct MailboxErrorFrame {
    /// type of the error frame
    pub ty: u16,
    /// error, a [MailboxError] code
    pub detail: u16,
}

impl MailboxErrorFrame {
    /// the bits of the struct read as an integer, each field truncated to its width
    pub open spec fn raw(&self) -> nat {
        (self.ty as nat % 0x10000)
            + (self.detail as nat % 0x10000) * 0x10000
    }

    /// every field fits in its width
    pub open spec fn wf(&self) -> bool {
        true
    }

    /// the struct whose bits read as the integer `raw`
    pub open spec fn from_raw(raw: nat) -> Self {
        MailboxErrorFrame {
            ty: (raw % 0x10000) as u16,
            detail: (raw / 0x10000 % 0x10000) as u16,
        }
    }

    /// the bits of the struct read as an integer, each field truncated to its width
    pub fn to_bits(&self) -> (r: u64)
        ensures
            r == self.raw(),
    {
        (self.ty as u64 % 0x10000)
            + (self.detail as u64 % 0x10000) * 0x10000
    }

    /// the struct whose bits read as the integer `raw`
    pub fn from_bits(raw: u64) -> (r: Self)
        requires
            raw < 0x100000000,
        ensures
            r == Self::from_raw(raw as nat),
            r.wf(),
    {
        MailboxErrorFrame {
            ty: (raw % 0x10000) as u16,
            detail: (raw / 0x10000 % 0x10000) as u16,
        }
    }
}

impl PduData for MailboxErrorFrame {
    const ID: TypeId = TypeId::CUSTOM;
    type Packed = [u8; 4];

    open spec fn pack_defined(len: nat, bitoffset: u8, bitsize: usize, bitordering: Endianness) -> bool {
        true
    }

    open spec fn spec_pack_slice(
        &self,
        data: Seq<u8>,
        bitoffset: u8,
        bitsize: usize,
        bitordering: Endianness,
    ) -> PackingResult<Seq<u8>> {
        bits_pack_slice_result(self.raw(), 4, data, bitoffset, bitsize)
    }

    open spec fn unpack_defined(len: nat, bitoffset: u8, bitsize: usize, bitordering: Endianness) -> bool {
        true
    }

    open spec fn spec_unpack_slice(
        src: Seq<u8>,
        bitoffset: u8,
        bitsize: usize,
        bitordering: Endianness,
    ) -> PackingResult<Self> {
        match bits_unpack_slice_result(src, 4, bitoffset, bitsize) {
            Ok(v) => Ok(Self::from_raw(v)),
            Err(e) => Err(e),
        }
    }

    open spec fn pack_whole_defined(len: nat) -> bool {
        true
    }

    open spec fn spec_pack(&self, data: Seq<u8>) -> PackingResult<Seq<u8>> {
        bits_pack_result(self.raw(), 4, data)
    }

    open spec fn unpack_whole_defined(len: nat) -> bool {
        true
    }

    open spec fn spec_unpack(src: Seq<u8>) -> PackingResult<Self> {
        match bits_unpack_result(src, 4) {
            Ok(v) => Ok(Self::from_raw(v)),
            Err(e) => Err(e),
        }
    }

    fn pack(&self, data: &mut [u8]) -> (r: PackingResult<()>) {
        proof {
            lemma2_to64();
        }
        pack_bits(self.to_bits(), 4, data)
    }

    fn unpack(src: &[u8]) -> (r: PackingResult<Self>) {
        proof {
            lemma2_to64();
            lemma2_to64_rest();
        }
        match unpack_bits(src, 4) {
            Ok(v) => Ok(Self::from_bits(v)),
            Err(e) => Err(e),
        }
    }

    fn pack_slice(
        &self,
        data: &mut [u8],
        bitoffset: u8,
        bitsize: usize,
        bitordering: Endianness,
    ) -> (r: PackingResult<()>) {
        if bitoffset != 0 {
            return Err(PackingError::BadAlignment(bitoffset as usize, "Bit offset must be at 0 on this implementation"));
        }
        if bitsize != 0 {
            return Err(PackingError::BadSize(bitsize, "Bit size must be at 0 on this implementation"));
        }
        self.pack(data)
    }

    fn unpack_slice(src: &[u8], bitoffset: u8, bitsize: usize, bitordering: Endianness) -> (r: PackingResult<Self>) {
        if bitoffset != 0 {
            return Err(PackingError::BadAlignment(bitoffset as usize, "Bit offset must be at 0 on this implementation"));
        }
        if bitsize != 0 {
            return Err(PackingError::BadSize(bitsize, "Bit size must be at 0 on this implementation"));
        }
        Self::unpack(src)
    }
}

/// The bits of a [MailboxErrorFrame] whose fields fit in their widths, read back as a struct, give the
/// same struct; and any integer of its width, turned into a struct and back, is unchanged.
pub proof fn law_mailbox_error_frame_bits_roundtrip(h: MailboxErrorFrame, raw: nat)
    ensures
        h.wf() ==> MailboxErrorFrame::from_raw(h.raw()) == h,
        raw < 0x100000000 ==> MailboxErrorFrame::from_raw(raw).raw() == raw,
{
}
/// counter of the next mailbox service: rolling from 1 to 7 and overflowing to 1 after 7
pub open spec fn next_count(count: u8) -> u8 {
    (count % 7 + 1) as u8
}

/// reading or writing status of a mailbox
#[derive(Copy, Clone, Debug)]
pub struct Direction {
    /// counter of the last mailbox service
    pub count: u8,
    /// start of the mailbox buffer in the slave's physical memory
    pub address: u16,
    /// size of the mailbox buffer
    pub max: usize,
    /// sync manager channel controling the buffer
    pub channel: Field<SyncManagerChannel>,
}

impl Direction {
    /// a direction using the given buffer, with no service done yet
    pub fn new(channel: Field<SyncManagerChannel>, start: u16, end: u16) -> (r: Self)
        requires
            start <= end,
        ensures
            r.count == 0,
            r.address == start,
            r.max == end - start,
            r.channel.offset == channel.offset,
            r.channel.len == channel.len,
            r.channel.endian == channel.endian,
    {
        Direction { count: 0, address: start, max: (end - start) as usize, channel }
    }

    /// advance the counter to the next mailbox service, and return it
    pub fn next(&mut self) -> (r: u8)
        ensures
            r == next_count(old(self).count),
            final(self).count == r,
            final(self).address == old(self).address,
            final(self).max == old(self).max,
    {
        self.count = self.count % 7 + 1;
        self.count
    }

    /// configuration of the sync manager channel for this mailbox buffer
    pub fn sync_config(&self, direction: SyncDirection) -> (r: SyncManagerChannel)
        requires
            self.max <= u16::MAX,
        ensures
            r.address == self.address,
            r.length == self.max,
            r.spec_mode() == sync_mode_code(SyncMode::Mailbox),
            r.spec_direction() == sync_direction_code(direction),
            r.spec_dls_user_event(),
            !r.spec_ec_event(),
            r.spec_enable(),
            !r.spec_watchdog(),
            !r.spec_repeat(),
            r.status == 0,
            r.pdi == 0,
    {
        let mut config = SyncManagerChannel { address: 0, length: 0, control: 0, status: 0, activate: 0, pdi: 0 };
        config.address = self.address;
        config.length = self.max as u16;
        config.set_mode(SyncMode::Mailbox.code());
        config.set_direction(direction.code());
        config.set_dls_user_event(true);
        config.set_ec_event(false);
        config.set_enable(true);
        config
    }
}

/// The mailbox counter rolls from 1 to 7, then back to 1, and never takes the reserved value 0.
pub proof fn law_mailbox_count_rolls(count: u8)
    requires
        count <= 7,
    ensures
        1 <= next_count(count) <= 7,
        count < 7 ==> next_count(count) == count + 1,
        count == 7 ==> next_count(count) == 1,
{
}

/// the bytes of a mailbox frame to write: header then data, padded with zeros to the mailbox size
pub open spec fn mailbox_frame(ty: MailboxType, priority: u8, count: u8, data: Seq<u8>, max: nat) -> Seq<u8> {
    let header = MailboxHeader {
        length: data.len() as u16,
        address: 0,
        channel: 0,
        priority,
        ty: mailbox_type_code(ty),
        count,
        reserved: false,
    };
    le_bytes(header.raw(), 6) + data + Seq::new((max - 6 - data.len()) as nat, |i: int| 0u8)
}

/// size of the mailbox header
pub const MAILBOX_HEADER_SIZE: usize = 6;

/**
    assemble the frame writing the given data in a mailbox of size `max`

    - 0 is lowest priority, 3 is highest
    - the frame fills the whole mailbox buffer, its first bytes are the header and data
*/
pub fn write_frame(ty: MailboxType, priority: u8, count: u8, data: &[u8], max: usize) -> (r: EthercatResult<Vec<u8>, MailboxError>)
    requires
        priority < 4,
        count < 8,
        max <= MAILBOX_MAX_SIZE,
    ensures
        max < MAILBOX_HEADER_SIZE + data@.len() ==> r == Err::<Vec<u8>, EthercatError<MailboxError>>(
            EthercatError::Master("data too big for mailbox buffer"),
        ),
        max >= MAILBOX_HEADER_SIZE + data@.len() ==> (r matches Ok(frame) && frame@ == mailbox_frame(ty, priority, count, data@, max as nat)),
{
    if max < MAILBOX_HEADER_SIZE || max - MAILBOX_HEADER_SIZE < data.len() {
        return Err(EthercatError::Master("data too big for mailbox buffer"));
    }
    let header = MailboxHeader {
        length: data.len() as u16,
        address: 0,
        channel: 0,
        priority,
        ty: ty.code(),
        count,
        reserved: false,
    };
    proof {
        lemma2_to64();
        lemma2_to64_rest();
    }
    let mut frame = crate::numbers::le_bytes_of(header.to_bits(), MAILBOX_HEADER_SIZE);
    proof {
        crate::numbers::lemma_le_bytes_len(header.raw(), 6);
    }
    let ghost h = frame@;
    let mut i: usize = 0;
    while i < data.len()
        invariant
            i <= data@.len(),
            frame@ == h + data@.subrange(0, i as int),
        decreases data@.len() - i,
    {
        frame.push(data[i]);
        i = i + 1;
    }
    let ghost hd = frame@;
    let mut j: usize = MAILBOX_HEADER_SIZE + data.len();
    while j < max
        invariant
            MAILBOX_HEADER_SIZE + data@.len() <= j <= max,
            frame@.len() == j,
            frame@ == hd + Seq::new((j - MAILBOX_HEADER_SIZE - data@.len()) as nat, |k: int| 0u8),
            hd.len() == MAILBOX_HEADER_SIZE + data@.len(),
        decreases max - j,
    {
        frame.push(0);
        j = j + 1;
        proof {
            assert(frame@ =~= hd + Seq::new((j - MAILBOX_HEADER_SIZE - data@.len()) as nat, |k: int| 0u8));
        }
    }
    proof {
        assert(data@.subrange(0, data@.len() as int) =~= data@);
        assert(frame@ =~= mailbox_frame(ty, priority, count, data@, max as nat));
    }
    Ok(frame)
}

/**
    whether writing a frame of `len` data bytes to a mailbox of size `max` writes only the start of the frame and
    the last word of the mailbox, rather than the whole mailbox buffer

    the slave notices the data sent only once the last byte of its mailbox buffer is written
*/
pub fn write_only_start(max: usize, len: usize) -> (r: bool)
    requires
        len <= max,
    ensures
        r == (max - len > 32),
{
    max - len > 32
}

/// amount of data bytes read together with the header of a mailbox frame, because of ethercat frame padding
pub const SMALL_MAIL: usize = 26;

/// what reading the start of a mailbox frame tells of the mail
#[derive(Copy, Clone, Debug, PartialEq, Eq, Structural)]
pub struct MailStart {
    /// size of the mail data
    pub size: usize,
    /// the data was not entirely read with the header and needs another read
    pub more: bool,
    /// the end of the mailbox buffer has to be read to acknowledge the reading
    pub acknowledge: bool,
}

/// outcome of checking the start of a received mailbox frame (`start` holding its header and following bytes)
pub open spec fn mail_start_result(ty: MailboxType, start: Seq<u8>, capacity: nat, max: nat) -> EthercatResult<MailStart, MailboxError> {
    if start.len() < MAILBOX_HEADER_SIZE {
        Err(EthercatError::Protocol("unable to unpack mailbox header"))
    } else {
        let header = MailboxHeader::from_raw(le_value(start.subrange(0, 6)));
        if header.ty == mailbox_type_code(MailboxType::Exception) {
            if start.len() < MAILBOX_HEADER_SIZE + 4 {
                Err(EthercatError::Protocol("unable to unpack received mailbox error"))
            } else {
                let error = MailboxErrorFrame::from_raw(le_value(start.subrange(6, 10)));
                match mailbox_error_of_code(error.detail) {
                    Some(detail) => Err(EthercatError::Slave(detail)),
                    None => Err(EthercatError::Protocol("unable to unpack received mailbox error")),
                }
            }
        } else if header.ty != mailbox_type_code(ty) {
            Err(EthercatError::Protocol("received unexpected mailbox frame type"))
        } else if capacity < header.length {
            Err(EthercatError::Master("read buffer is too small for the mailbox data"))
        } else {
            Ok(MailStart {
                size: header.length as usize,
                more: header.length > SMALL_MAIL,
                acknowledge: header.length < max,
            })
        }
    }
}

/**
    check the start of a mailbox frame read from the slave, expecting a frame of type `ty` fitting in a
    buffer of `capacity` bytes, from a mailbox of size `max`

    the exceptions reported by the slave are returned as slave errors
*/
pub fn check_mail_start(ty: MailboxType, start: &[u8], capacity: usize, max: usize) -> (r: EthercatResult<MailStart, MailboxError>)
    ensures
        r == mail_start_result(ty, start@, capacity as nat, max as nat),
{
    let header = match MailboxHeader::unpack(start) {
        Ok(header) => header,
        Err(_) => {
            return Err(EthercatError::Protocol("unable to unpack mailbox header"));
        },
    };
    if header.ty == MailboxType::Exception.code() {
        if start.len() < MAILBOX_HEADER_SIZE + 4 {
            return Err(EthercatError::Protocol("unable to unpack received mailbox error"));
        }
        let rest = vstd::slice::slice_subrange(start, MAILBOX_HEADER_SIZE, start.len());
        let error = match MailboxErrorFrame::unpack(rest) {
            Ok(error) => error,
            Err(_) => {
                return Err(EthercatError::Protocol("unable to unpack received mailbox error"));
            },
        };
        proof {
            assert(rest@.subrange(0, 4) =~= start@.subrange(6, 10));
        }
        return match MailboxError::from_code(error.detail) {
            Some(detail) => Err(EthercatError::Slave(detail)),
            None => Err(EthercatError::Protocol("unable to unpack received mailbox error")),
        };
    }
    if header.ty != ty.code() {
        return Err(EthercatError::Protocol("received unexpected mailbox frame type"));
    }
    if capacity < header.length as usize {
        return Err(EthercatError::Master("read buffer is too small for the mailbox data"));
    }
    Ok(MailStart {
        size: header.length as usize,
        more: header.length as usize > SMALL_MAIL,
        acknowledge: (header.length as usize) < max,
    })
}

/// A mail written for a mailbox reads back: checking the start of the frame written for `data`
/// announces the size of `data`, when the reading buffer can hold it.
pub proof fn law_mail_roundtrip(ty: MailboxType, priority: u8, count: u8, data: Seq<u8>, max: nat, capacity: nat)
    requires
        ty != MailboxType::Exception,
        priority < 4,
        count < 8,
        MAILBOX_HEADER_SIZE + data.len() <= max,
        max <= MAILBOX_MAX_SIZE,
        data.len() <= capacity,
    ensures
        mail_start_result(ty, mailbox_frame(ty, priority, count, data, max), capacity, max)
            == Ok::<MailStart, EthercatError<MailboxError>>(MailStart {
                size: data.len() as usize,
                more: data.len() > SMALL_MAIL,
                acknowledge: data.len() < max,
            }),
{
    let header = MailboxHeader {
        length: data.len() as u16,
        address: 0,
        channel: 0,
        priority,
        ty: mailbox_type_code(ty),
        count,
        reserved: false,
    };
    let frame = mailbox_frame(ty, priority, count, data, max);
    crate::numbers::lemma_le_bytes_len(header.raw(), 6);
    assert(frame.subrange(0, 6) =~= le_bytes(header.raw(), 6));
    crate::numbers::lemma_le_value_of_bytes(header.raw(), 6);
    lemma2_to64();
    lemma2_to64_rest();
    assert(header.raw() < pow2(48));
    vstd::arithmetic::div_mod::lemma_small_mod(header.raw(), pow2(48));
    law_mailbox_header_bits_roundtrip(header, 0);
}

} // verus!
