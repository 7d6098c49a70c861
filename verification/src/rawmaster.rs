//! low level ethercat communication: PDU frames, their headers, and the bookkeeping of the frame being assembled and of the PDU tokens.
use vstd::prelude::*;
use vstd::arithmetic::power2::*;
use vstd::arithmetic::power2::{lemma2_to64, lemma2_to64_rest};
use crate::data::{
    PduData, Storage, TypeId, Endianness, PackingError, PackingResult, Cursor,
    bits_pack_result, bits_unpack_result, bits_pack_slice_result, bits_unpack_slice_result,
    pack_bits, unpack_bits, write_outcome,
};
use crate::error::{EthercatError, EthercatResult};
use crate::numbers::{le_bytes, le_value};

verus! {

/// maximum frame size, currently limited to the ethernet frame size
pub const MAX_ETHERCAT_FRAME: usize = 1500;
/// minimum PDU size
pub const MIN_PDU: usize = 60;
/// maximum number of PDU in an ethercat frame
pub const MAX_ETHERCAT_PDU: usize = MAX_ETHERCAT_FRAME / MIN_PDU;

/// dynamically specifies a destination address on the ethercat loop
#[derive(Copy, Clone, Debug, Eq, PartialEq, Hash, Structural)]
pub enum SlaveAddress {
    /// every slave will receive and execute
    Broadcast,
    /// address will be determined by the topology (index of the slave in the ethernet loop)
    AutoIncremented(u16),
    /// address has been set by the master previously
    Fixed(u16),
    /// the logical memory is the destination, all slaves are concerned
    Logical,
}

/// dynamically specifies a destination address on the ethercat loop
#[derive(Copy, Clone, Debug, Eq, PartialEq, Hash, Structural)]
pub enum Address {
    /// every slave will receive and execute
    Broadcast,
    /// address will be determined by the topology (index of the slave in the ethernet loop)
    AutoIncremented,
    /// address has been set by the master previously
    Configured(u32),
    /// the logical memory is the destination, all slaves are concerned
    Logical,
}

/// the possible PDU commands
#[derive(Copy, Clone, Debug, Eq, PartialEq, Hash, Structural)]
pub enum PduCommand {
    /// no operation
    NOP,
    /// broadcast read: all slaves will read their physical memory and retransmit a bitwise-or of their local data with the received data
    BRD,
    /// broadcast write: all slaves will write their physical memory with the received data
    BWR,
    /// broadcast read & write, actually it is write-then-read
    BRW,
    /// auto-incremented slave read: the slave specified by its rank in the ethercat ring will read its physical memory and transmit it
    APRD,
    /// auto-incremented slave write: the slave specified by its rank in the ethercat ring will write its physical memory with the received data
    APWR,
    /// auto-incremented slave read & write, actually it is write-then-read
    APRW,
    /// fixed slave read: the slave specified by a previously fixed address will read its physical memory and transmit it
    FPRD,
    /// fixed slave write: the slave specified by a previously fixed address will write its physical memory with the received data
    FPWR,
    /// fixed slave read & write
    FPRW,
    /// logical memory read: all slave will read their memory mapped using FMMUs enabled for reading, and complete the data received before transmiting
    LRD,
    /// logical memory write: all slave will write their memory mapped using FMMUs enabled for writting
    LWR,
    /// logical memory read & write
    LRW,
    /// auto-incremented slave read multiple write: the slave matching this PDU'address will read the data and retransmit, other slaves will write it
    ARMW,
    /// fixed slave read multiple write: the slave matching this PDU'address will read the data and retransmit, other slaves will write it
    FRMW,
}

impl Default for PduCommand {
    fn default() -> (r: Self)
        ensures
            r == PduCommand::NOP,
    {
        PduCommand::NOP
    }
}

/// code of a PDU command on the wire
pub open spec fn command_code(c: PduCommand) -> u8 {
    match c {
        PduCommand::NOP => 0x00,
        PduCommand::BRD => 0x07,
        PduCommand::BWR => 0x08,
        PduCommand::BRW => 0x09,
        PduCommand::APRD => 0x01,
        PduCommand::APWR => 0x02,
        PduCommand::APRW => 0x03,
        PduCommand::FPRD => 0x04,
        PduCommand::FPWR => 0x05,
        PduCommand::FPRW => 0x06,
        PduCommand::LRD => 0x0A,
        PduCommand::LWR => 0x0B,
        PduCommand::LRW => 0x0C,
        PduCommand::ARMW => 0x0D,
        PduCommand::FRMW => 0x0E,
    }
}

impl PduCommand {
    /// code of the command on the wire
    pub fn code(self) -> (r: u8)
        ensures
            r == command_code(self),
    {
        match self {
            PduCommand::NOP => 0x00,
            PduCommand::BRD => 0x07,
            PduCommand::BWR => 0x08,
            PduCommand::BRW => 0x09,
            PduCommand::APRD => 0x01,
            PduCommand::APWR => 0x02,
            PduCommand::APRW => 0x03,
            PduCommand::FPRD => 0x04,
            PduCommand::FPWR => 0x05,
            PduCommand::FPRW => 0x06,
            PduCommand::LRD => 0x0A,
            PduCommand::LWR => 0x0B,
            PduCommand::LRW => 0x0C,
            PduCommand::ARMW => 0x0D,
            PduCommand::FRMW => 0x0E,
        }
    }

    /// command of the given code, unknown codes falling back to [PduCommand::NOP]
    pub fn from_code(code: u8) -> (r: Self)
        ensures
            r == command_of_code(code),
    {
        let r = match code {
            0x07 => PduCommand::BRD,
            0x08 => PduCommand::BWR,
            0x09 => PduCommand::BRW,
            0x01 => PduCommand::APRD,
            0x02 => PduCommand::APWR,
            0x03 => PduCommand::APRW,
            0x04 => PduCommand::FPRD,
            0x05 => PduCommand::FPWR,
            0x06 => PduCommand::FPRW,
            0x0A => PduCommand::LRD,
            0x0B => PduCommand::LWR,
            0x0C => PduCommand::LRW,
            0x0D => PduCommand::ARMW,
            0x0E => PduCommand::FRMW,
            _ => PduCommand::NOP,
        };
        r
    }
}

/// type of ethercat frame
#[derive(Copy, Clone, Debug, Eq, PartialEq, Structural)]
pub enum EthercatType {
    /// process data unit, use to exchange with physical and logical memory in realtime or not
    /// the mailbox content sent to slaves shall be written to the physical memory through these
    PDU,
    /// network variable
    NetworkVariable,
    /// mailbox gateway communication, between the master and non-slave devices, allowing non-slave devices to mailbox with the slaves
    Mailbox,
}

/// code of a frame type on the wire
pub open spec fn ethercat_type_code(t: EthercatType) -> u8 {
    match t {
        EthercatType::PDU => 0x1,
        EthercatType::NetworkVariable => 0x4,
        EthercatType::Mailbox => 0x5,
    }
}

impl EthercatType {
    /// code of the frame type on the wire
    pub fn code(self) -> (r: u8)
        ensures
            r == ethercat_type_code(self),
    {
        match self {
            EthercatType::PDU => 0x1,
            EthercatType::NetworkVariable => 0x4,
            EthercatType::Mailbox => 0x5,
        }
    }

    /// frame type of the given code, if any
    pub fn from_code(code: u8) -> (r: Option<Self>)
        ensures
            match r {
                Some(t) => ethercat_type_code(t) == code,
                None => code != 0x1 && code != 0x4 && code != 0x5,
            },
    {
        match code {
            0x1 => Some(EthercatType::PDU),
            0x4 => Some(EthercatType::NetworkVariable),
            0x5 => Some(EthercatType::Mailbox),
            _ => None,
        }
    }
}

/// ethercat frame header (common to ethernet or UDP mediums) as described in ETG 1000.4 table 11
#[derive(Copy, Clone, Debug, PartialEq, Eq, Structural)]
pub struct EthercatHeader {
    /// length of the ethercat frame (minus 2 bytes, which is the header)
    pub len: u16,
    /// reserved bit
    pub reserved: bool,
    /// frame type, code of an [EthercatType]
    pub ty: u8,
}

impl EthercatHeader {
    /// the bits of the struct read as an integer, each field truncated to its width
    pub open spec fn raw(&self) -> nat {
        (self.len as nat % 0x800)
            + (if self.reserved { 1nat } else { 0nat }) * 0x800
            + (self.ty as nat % 0x10) * 0x1000
    }

    /// every field fits in its width
    pub open spec fn wf(&self) -> bool {
        self.len < 0x800
        && self.ty < 0x10
    }

    /// the struct whose bits read as the integer `raw`
    pub open spec fn from_raw(raw: nat) -> Self {
        EthercatHeader {
            len: (raw % 0x800) as u16,
            reserved: (raw / 0x800 % 0x2) == 1,
            ty: (raw / 0x1000 % 0x10) as u8,
        }
    }

    /// the bits of the struct read as an integer, each field truncated to its width
    pub fn to_bits(&self) -> (r: u64)
        ensures
            r == self.raw(),
    {
        (self.len as u64 % 0x800)
            + (if self.reserved { 1u64 } else { 0u64 }) * 0x800
            + (self.ty as u64 % 0x10) * 0x1000
    }

    /// the struct whose bits read as the integer `raw`
    pub fn from_bits(raw: u64) -> (r: Self)
        requires
            raw < 0x10000,
        ensures
            r == Self::from_raw(raw as nat),
            r.wf(),
    {
        EthercatHeader {
            len: (raw % 0x800) as u16,
            reserved: (raw / 0x800 % 0x2) == 1,
            ty: (raw / 0x1000 % 0x10) as u8,
        }
    }
}

impl PduData for EthercatHeader {
    const ID: TypeId = TypeId::CUSTOM;
    type Packed = [u8; 2];

    open spec fn pack_defined(len: nat, bitoffset: u8, bitsize: usize, bitordering: Endianness) -> bool {
        true
    }

    open spec fn spec_pack_slice(
        &self,
        data: Seq<u8>,
        bitoffset: u8,
        bitsize: usize,
        bitordering: Endianness,
    ) -> PackingResult<Seq<u8>> {
        bits_pack_slice_result(self.raw(), 2, data, bitoffset, bitsize)
    }

    open spec fn unpack_defined(len: nat, bitoffset: u8, bitsize: usize, bitordering: Endianness) -> bool {
        true
    }

    open spec fn spec_unpack_slice(
        src: Seq<u8>,
        bitoffset: u8,
        bitsize: usize,
        bitordering: Endianness,
    ) -> PackingResult<Self> {
        match bits_unpack_slice_result(src, 2, bitoffset, bitsize) {
            Ok(v) => Ok(Self::from_raw(v)),
            Err(e) => Err(e),
        }
    }

    open spec fn pack_whole_defined(len: nat) -> bool {
        true
    }

    open spec fn spec_pack(&self, data: Seq<u8>) -> PackingResult<Seq<u8>> {
        bits_pack_result(self.raw(), 2, data)
    }

    open spec fn unpack_whole_defined(len: nat) -> bool {
        true
    }

    open spec fn spec_unpack(src: Seq<u8>) -> PackingResult<Self> {
        match bits_unpack_result(src, 2) {
            Ok(v) => Ok(Self::from_raw(v)),
            Err(e) => Err(e),
        }
    }

    fn pack(&self, data: &mut [u8]) -> (r: PackingResult<()>) {
        proof {
            lemma2_to64();
        }
        pack_bits(self.to_bits(), 2, data)
    }

    fn unpack(src: &[u8]) -> (r: PackingResult<Self>) {
        proof {
            lemma2_to64();
        }
        match unpack_bits(src, 2) {
            Ok(v) => Ok(Self::from_bits(v)),
            Err(e) => Err(e),
        }
    }

    fn pack_slice(
        &self,
        data: &mut [u8],
        bitoffset: u8,
        bitsize: usize,
        bitordering: Endianness,
    ) -> (r: PackingResult<()>) {
        if bitoffset != 0 {
            return Err(PackingError::BadAlignment(bitoffset as usize, "Bit offset must be at 0 on this implementation"));
        }
        if bitsize != 0 {
            return Err(PackingError::BadSize(bitsize, "Bit size must be at 0 on this implementation"));
        }
        self.pack(data)
    }

    fn unpack_slice(src: &[u8], bitoffset: u8, bitsize: usize, bitordering: Endianness) -> (r: PackingResult<Self>) {
        if bitoffset != 0 {
            return Err(PackingError::BadAlignment(bitoffset as usize, "Bit offset must be at 0 on this implementation"));
        }
        if bitsize != 0 {
            return Err(PackingError::BadSize(bitsize, "Bit size must be at 0 on this implementation"));
        }
        Self::unpack(src)
    }
}

/// The bits of a [EthercatHeader] whose fields fit in their widths, read back as a struct, give the
/// same struct; and any integer of its width, turned into a struct and back, is unchanged.
pub proof fn law_ethercat_header_bits_roundtrip(h: EthercatHeader, raw: nat)
    ensures
        h.wf() ==> EthercatHeader::from_raw(h.raw()) == h,
        raw < 0x10000 ==> EthercatHeader::from_raw(raw).raw() == raw,
{
}
/// footer for PDU exchange
#[derive(Copy, Clone, Debug, PartialEq, Eq, Structural)]
pub struct PduFooter {
    /// number of slaves that executed the PDU command
    pub working_count: u16,
}

impl PduFooter {
    /// the bits of the struct read as an integer, each field truncated to its width
    pub open spec fn raw(&self) -> nat {
        (self.working_count as nat % 0x10000)
    }

    /// every field fits in its width
    pub open spec fn wf(&self) -> bool {
        true
    }

    /// the struct whose bits read as the integer `raw`
    pub open spec fn from_raw(raw: nat) -> Self {
        PduFooter {
            working_count: (raw % 0x10000) as u16,
        }
    }

    /// the bits of the struct read as an integer, each field truncated to its width
    pub fn to_bits(&self) -> (r: u64)
        ensures
            r == self.raw(),
    {
        (self.working_count as u64 % 0x10000)
    }

    /// the struct whose bits read as the integer `raw`
    pub fn from_bits(raw: u64) -> (r: Self)
        requires
            raw < 0x10000,
        ensures
            r == Self::from_raw(raw as nat),
            r.wf(),
    {
        PduFooter {
            working_count: (raw % 0x10000) as u16,
        }
    }
}

impl PduData for PduFooter {
    const ID: TypeId = TypeId::CUSTOM;
    type Packed = [u8; 2];

    open spec fn pack_defined(len: nat, bitoffset: u8, bitsize: usize, bitordering: Endianness) -> bool {
        true
    }

    open spec fn spec_pack_slice(
        &self,
        data: Seq<u8>,
        bitoffset: u8,
        bitsize: usize,
        bitordering: Endianness,
    ) -> PackingResult<Seq<u8>> {
        bits_pack_slice_result(self.raw(), 2, data, bitoffset, bitsize)
    }

    open spec fn unpack_defined(len: nat, bitoffset: u8, bitsize: usize, bitordering: Endianness) -> bool {
        true
    }

    open spec fn spec_unpack_slice(
        src: Seq<u8>,
        bitoffset: u8,
        bitsize: usize,
        bitordering: Endianness,
    ) -> PackingResult<Self> {
        match bits_unpack_slice_result(src, 2, bitoffset, bitsize) {
            Ok(v) => Ok(Self::from_raw(v)),
            Err(e) => Err(e),
        }
    }

    open spec fn pack_whole_defined(len: nat) -> bool {
        true
    }

    open spec fn spec_pack(&self, data: Seq<u8>) -> PackingResult<Seq<u8>> {
        bits_pack_result(self.raw(), 2, data)
    }

    open spec fn unpack_whole_defined(len: nat) -> bool {
        true
    }

    open spec fn spec_unpack(src: Seq<u8>) -> PackingResult<Self> {
        match bits_unpack_result(src, 2) {
            Ok(v) => Ok(Self::from_raw(v)),
            Err(e) => Err(e),
        }
    }

    fn pack(&self, data: &mut [u8]) -> (r: PackingResult<()>) {
        proof {
            lemma2_to64();
        }
        pack_bits(self.to_bits(), 2, data)
    }

    fn unpack(src: &[u8]) -> (r: PackingResult<Self>) {
        proof {
            lemma2_to64();
        }
        match unpack_bits(src, 2) {
            Ok(v) => Ok(Self::from_bits(v)),
            Err(e) => Err(e),
        }
    }

    fn pack_slice(
        &self,
        data: &mut [u8],
        bitoffset: u8,
        bitsize: usize,
        bitordering: Endianness,
    ) -> (r: PackingResult<()>) {
        if bitoffset != 0 {
            return Err(PackingError::BadAlignment(bitoffset as usize, "Bit offset must be at 0 on this implementation"));
        }
        if bitsize != 0 {
            return Err(PackingError::BadSize(bitsize, "Bit size must be at 0 on this implementation"));
        }
        self.pack(data)
    }

    fn unpack_slice(src: &[u8], bitoffset: u8, bitsize: usize, bitordering: Endianness) -> (r: PackingResult<Self>) {
        if bitoffset != 0 {
            return Err(PackingError::BadAlignment(bitoffset as usize, "Bit offset must be at 0 on this implementation"));
        }
        if bitsize != 0 {
            return Err(PackingError::BadSize(bitsize, "Bit size must be at 0 on this implementation"));
        }
        Self::unpack(src)
    }
}

/// The bits of a [PduFooter] whose fields fit in their widths, read back as a struct, give the
/// same struct; and any integer of its width, turned into a struct and back, is unchanged.
pub proof fn law_pdu_footer_bits_roundtrip(h: PduFooter, raw: nat)
    ensures
        h.wf() ==> PduFooter::from_raw(h.raw()) == h,
        raw < 0x10000 ==> PduFooter::from_raw(raw).raw() == raw,
{
}
/// possible layout for the address of a PDU header: a slave and a memory address in its physical memory
#[derive(Copy, Clone, Debug, PartialEq, Eq, Structural)]
pub struct MemoryAddress {
    /// slave address in the ethercat segment
    pub slave: u16,
    /// address accessed in the slave's memory
    pub memory: u16,
}

impl MemoryAddress {
    /// the bits of the struct read as an integer, each field truncated to its width
    pub open spec fn raw(&self) -> nat {
        (self.slave as nat % 0x10000)
            + (self.memory as nat % 0x10000) * 0x10000
    }

    /// every field fits in its width
    pub open spec fn wf(&self) -> bool {
        true
    }

    /// the struct whose bits read as the integer `raw`
    pub open spec fn from_raw(raw: nat) -> Self {
        MemoryAddress {
            slave: (raw % 0x10000) as u16,
            memory: (raw / 0x10000 % 0x10000) as u16,
        }
    }

    /// the bits of the struct read as an integer, each field truncated to its width
    pub fn to_bits(&self) -> (r: u64)
        ensures
            r == self.raw(),
    {
        (self.slave as u64 % 0x10000)
            + (self.memory as u64 % 0x10000) * 0x10000
    }

    /// the struct whose bits read as the integer `raw`
    pub fn from_bits(raw: u64) -> (r: Self)
        requires
            raw < 0x100000000,
        ensures
            r == Self::from_raw(raw as nat),
            r.wf(),
    {
        MemoryAddress {
            slave: (raw % 0x10000) as u16,
            memory: (raw / 0x10000 % 0x10000) as u16,
        }
    }
}

impl PduData for MemoryAddress {
    const ID: TypeId = TypeId::CUSTOM;
    type Packed = [u8; 4];

    open spec fn pack_defined(len: nat, bitoffset: u8, bitsize: usize, bitordering: Endianness) -> bool {
        true
    }

    open spec fn spec_pack_slice(
        &self,
        data: Seq<u8>,
        bitoffset: u8,
        bitsize: usize,
        bitordering: Endianness,
    ) -> PackingResult<Seq<u8>> {
        bits_pack_slice_result(self.raw(), 4, data, bitoffset, bitsize)
    }

    open spec fn unpack_defined(len: nat, bitoffset: u8, bitsize: usize, bitordering: Endianness) -> bool {
        true
    }

    open spec fn spec_unpack_slice(
        src: Seq<u8>,
        bitoffset: u8,
        bitsize: usize,
        bitordering: Endianness,
    ) -> PackingResult<Self> {
        match bits_unpack_slice_result(src, 4, bitoffset, bitsize) {
            Ok(v) => Ok(Self::from_raw(v)),
            Err(e) => Err(e),
        }
    }

    open spec fn pack_whole_defined(len: nat) -> bool {
        true
    }

    open spec fn spec_pack(&self, data: Seq<u8>) -> PackingResult<Seq<u8>> {
        bits_pack_result(self.raw(), 4, data)
    }

    open spec fn unpack_whole_defined(len: nat) -> bool {
        true
    }

    open spec fn spec_unpack(src: Seq<u8>) -> PackingResult<Self> {
        match bits_unpack_result(src, 4) {
            Ok(v) => Ok(Self::from_raw(v)),
            Err(e) => Err(e),
        }
    }

    fn pack(&self, data: &mut [u8]) -> (r: PackingResult<()>) {
        proof {
            lemma2_to64();
        }
        pack_bits(self.to_bits(), 4, data)
    }

    fn unpack(src: &[u8]) -> (r: PackingResult<Self>) {
        proof {
            lemma2_to64();
        }
        match unpack_bits(src, 4) {
            Ok(v) => Ok(Self::from_bits(v)),
            Err(e) => Err(e),
        }
    }

    fn pack_slice(
        &self,
        data: &mut [u8],
        bitoffset: u8,
        bitsize: usize,
        bitordering: Endianness,
    ) -> (r: PackingResult<()>) {
        if bitoffset != 0 {
            return Err(PackingError::BadAlignment(bitoffset as usize, "Bit offset must be at 0 on this implementation"));
        }
        if bitsize != 0 {
            return Err(PackingError::BadSize(bitsize, "Bit size must be at 0 on this implementation"));
        }
        self.pack(data)
    }

    fn unpack_slice(src: &[u8], bitoffset: u8, bitsize: usize, bitordering: Endianness) -> (r: PackingResult<Self>) {
        if bitoffset != 0 {
            return Err(PackingError::BadAlignment(bitoffset as usize, "Bit offset must be at 0 on this implementation"));
        }
        if bitsize != 0 {
            return Err(PackingError::BadSize(bitsize, "Bit size must be at 0 on this implementation"));
        }
        Self::unpack(src)
    }
}

/// The bits of a [MemoryAddress] whose fields fit in their widths, read back as a struct, give the
/// same struct; and any integer of its width, turned into a struct and back, is unchanged.
pub proof fn law_memory_address_bits_roundtrip(h: MemoryAddress, raw: nat)
    ensures
        h.wf() ==> MemoryAddress::from_raw(h.raw()) == h,
        raw < 0x100000000 ==> MemoryAddress::from_raw(raw).raw() == raw,
{
}


/// command of a code on the wire, unknown codes falling back to [PduCommand::NOP]
pub open spec fn command_of_code(code: u8) -> PduCommand {
    if code == 0x07 {
        PduCommand::BRD
    } else if code == 0x08 {
        PduCommand::BWR
    } else if code == 0x09 {
        PduCommand::BRW
    } else if code == 0x01 {
        PduCommand::APRD
    } else if code == 0x02 {
        PduCommand::APWR
    } else if code == 0x03 {
        PduCommand::APRW
    } else if code == 0x04 {
        PduCommand::FPRD
    } else if code == 0x05 {
        PduCommand::FPWR
    } else if code == 0x06 {
        PduCommand::FPRW
    } else if code == 0x0A {
        PduCommand::LRD
    } else if code == 0x0B {
        PduCommand::LWR
    } else if code == 0x0C {
        PduCommand::LRW
    } else if code == 0x0D {
        PduCommand::ARMW
    } else if code == 0x0E {
        PduCommand::FRMW
    } else {
        PduCommand::NOP
    }
}

/// decoding the code of a command gives back the command
pub proof fn law_command_code_roundtrip(c: PduCommand)
    ensures
        command_of_code(command_code(c)) == c,
{
}

/**
    The PDU command codes on the wire are those of ETG.1000.4 table 14. For each addressing (auto increment,
    configured address, broadcast, logical) the read, write and read-write commands have consecutive codes, starting
    at 0x01, 0x04, 0x07 and 0x0A; NOP is 0x00 and the read-multiple-write commands 0x0D and 0x0E. Any code of a
    command decodes to that command, any other code to NOP.
*/
pub proof fn law_command_wire_codes(c: PduCommand, code: u8)
    ensures
        command_code(c) == match c {
            PduCommand::NOP => 0x00u8,
            PduCommand::APRD => 0x01u8,
            PduCommand::APWR => 0x02u8,
            PduCommand::APRW => 0x03u8,
            PduCommand::FPRD => 0x04u8,
            PduCommand::FPWR => 0x05u8,
            PduCommand::FPRW => 0x06u8,
            PduCommand::BRD => 0x07u8,
            PduCommand::BWR => 0x08u8,
            PduCommand::BRW => 0x09u8,
            PduCommand::LRD => 0x0Au8,
            PduCommand::LWR => 0x0Bu8,
            PduCommand::LRW => 0x0Cu8,
            PduCommand::ARMW => 0x0Du8,
            PduCommand::FRMW => 0x0Eu8,
        },
        command_code(PduCommand::APRD) == 0x01 && command_code(PduCommand::FPRD) == 0x04
            && command_code(PduCommand::BRD) == 0x07 && command_code(PduCommand::LRD) == 0x0A,
        command_code(PduCommand::APWR) == command_code(PduCommand::APRD) + 1
            && command_code(PduCommand::APRW) == command_code(PduCommand::APRD) + 2,
        command_code(PduCommand::FPWR) == command_code(PduCommand::FPRD) + 1
            && command_code(PduCommand::FPRW) == command_code(PduCommand::FPRD) + 2,
        command_code(PduCommand::BWR) == command_code(PduCommand::BRD) + 1
            && command_code(PduCommand::BRW) == command_code(PduCommand::BRD) + 2,
        command_code(PduCommand::LWR) == command_code(PduCommand::LRD) + 1
            && command_code(PduCommand::LRW) == command_code(PduCommand::LRD) + 2,
        code <= 0x0E ==> command_code(command_of_code(code)) == code,
        code > 0x0E ==> command_of_code(code) == PduCommand::NOP,
{
}

/// header of a PDU frame, this one of the possible ethercat frames
#[derive(Copy, Clone, Debug, PartialEq, Eq, Structural)]
pub struct PduHeader {
    /// PDU command, specifying whether logical or physical memory is accesses, addressing type, and what read/write operation
    pub command: PduCommand,
    /// PDU task request identifier
    pub token: u8,
    /// address on the bus, its content depends on the command: [MemoryAddress] or [u32]
    pub address: u32,
    /// data length following the header, excluding the footer. starting from `memory_address` in the addressed memory (11 bits)
    pub len: u16,
    /// reserved bits (3 bits)
    pub reserved: u8,
    /// true if the frame circulated already
    pub circulating: bool,
    /// true if there is an other PDU in the same PDU frame
    pub next: bool,
    /// external events of the slaves, as in register [crate::registers] `external_event`
    pub interrupt: u16,
}

impl PduHeader {
    /// a header for a new PDU
    pub fn new(
        command: PduCommand,
        token: u8,
        address: u32,
        len: u16,
        circulating: bool,
        next: bool,
        interrupt: u16,
    ) -> (r: Self)
        requires
            len < 0x800,
        ensures
            r == (PduHeader { command, token, address, len, reserved: 0, circulating, next, interrupt }),
    {
        PduHeader { command, token, address, len, reserved: 0, circulating, next, interrupt }
    }

    /// the first 8 bytes of the header read as an integer, least significant byte first
    pub open spec fn low_raw(&self) -> nat {
        command_code(self.command) as nat
            + self.token as nat * 0x100
            + self.address as nat * 0x10000
            + (self.len as nat % 0x800) * 0x1000000000000
            + (self.reserved as nat % 0x8) * 0x800000000000000
            + (if self.circulating { 1nat } else { 0nat }) * 0x4000000000000000
            + (if self.next { 1nat } else { 0nat }) * 0x8000000000000000
    }

    /// every field fits in its width
    pub open spec fn wf(&self) -> bool {
        self.len < 0x800 && self.reserved < 0x8
    }

    /// the header whose first 8 bytes read as `low` and last two as `interrupt`
    pub open spec fn from_parts(low: nat, interrupt: nat) -> Self {
        PduHeader {
            command: command_of_code((low % 0x100) as u8),
            token: (low / 0x100 % 0x100) as u8,
            address: (low / 0x10000 % 0x100000000) as u32,
            len: (low / 0x1000000000000 % 0x800) as u16,
            reserved: (low / 0x800000000000000 % 0x8) as u8,
            circulating: low / 0x4000000000000000 % 2 == 1,
            next: low / 0x8000000000000000 % 2 == 1,
            interrupt: interrupt as u16,
        }
    }

    /// bytes of the header on the wire
    pub open spec fn bytes(&self) -> Seq<u8> {
        le_bytes(self.low_raw(), 8) + le_bytes(self.interrupt as nat, 2)
    }

    fn low_bits(&self) -> (r: u64)
        ensures
            r == self.low_raw(),
    {
        self.command.code() as u64
            + self.token as u64 * 0x100
            + self.address as u64 * 0x10000
            + (self.len as u64 % 0x800) * 0x1000000000000
            + (self.reserved as u64 % 0x8) * 0x800000000000000
            + (if self.circulating { 1u64 } else { 0u64 }) * 0x4000000000000000
            + (if self.next { 1u64 } else { 0u64 }) * 0x8000000000000000
    }

    fn from_bits(low: u64, interrupt: u16) -> (r: Self)
        ensures
            r == Self::from_parts(low as nat, interrupt as nat),
            r.wf(),
    {
        PduHeader {
            command: PduCommand::from_code((low % 0x100) as u8),
            token: (low / 0x100 % 0x100) as u8,
            address: (low / 0x10000 % 0x100000000) as u32,
            len: (low / 0x1000000000000 % 0x800) as u16,
            reserved: (low / 0x800000000000000 % 0x8) as u8,
            circulating: low / 0x4000000000000000 % 2 == 1,
            next: low / 0x8000000000000000 % 2 == 1,
            interrupt,
        }
    }
}

/// The bytes of a [PduHeader] whose fields fit in their widths, read back as a header, give the same header.
pub proof fn law_pdu_header_roundtrip(h: PduHeader)
    requires
        h.wf(),
    ensures
        PduHeader::from_parts(h.low_raw(), h.interrupt as nat) == h,
{
    law_command_code_roundtrip(h.command);
    let c: u64 = command_code(h.command) as u64;
    let t: u64 = h.token as u64;
    let a: u64 = h.address as u64;
    let l: u64 = h.len as u64;
    let rs: u64 = h.reserved as u64;
    let ci: u64 = if h.circulating { 1 } else { 0 };
    let nx: u64 = if h.next { 1 } else { 0 };
    assert(h.low_raw() == c + t * 0x100 + a * 0x10000 + l * 0x1000000000000 + rs * 0x800000000000000 + ci
        * 0x4000000000000000 + nx * 0x8000000000000000);
    assert({
        let low = c + t * 0x100 + a * 0x10000 + l * 0x1000000000000 + rs * 0x800000000000000 + ci
            * 0x4000000000000000 + nx * 0x8000000000000000;
        &&& low % 0x100 == c
        &&& low / 0x100 % 0x100 == t
        &&& low / 0x10000 % 0x100000000 == a
        &&& low / 0x1000000000000 % 0x800 == l
        &&& low / 0x800000000000000 % 0x8 == rs
        &&& low / 0x4000000000000000 % 2 == ci
        &&& low / 0x8000000000000000 % 2 == nx
    }) by (bit_vector)
        requires
            c < 0x100,
            t < 0x100,
            a < 0x100000000,
            l < 0x800,
            rs < 0x8,
            ci < 2,
            nx < 2,
    ;
}

impl PduData for PduHeader {
    const ID: TypeId = TypeId::CUSTOM;
    type Packed = [u8; 10];

    open spec fn pack_defined(len: nat, bitoffset: u8, bitsize: usize, bitordering: Endianness) -> bool {
        true
    }

    open spec fn spec_pack_slice(
        &self,
        data: Seq<u8>,
        bitoffset: u8,
        bitsize: usize,
        bitordering: Endianness,
    ) -> PackingResult<Seq<u8>> {
        if bitoffset != 0 {
            Err(PackingError::BadAlignment(bitoffset as usize, "Bit offset must be at 0 on this implementation"))
        } else if bitsize != 0 {
            Err(PackingError::BadSize(bitsize, "Bit size must be at 0 on this implementation"))
        } else {
            self.spec_pack(data)
        }
    }

    open spec fn unpack_defined(len: nat, bitoffset: u8, bitsize: usize, bitordering: Endianness) -> bool {
        true
    }

    open spec fn spec_unpack_slice(
        src: Seq<u8>,
        bitoffset: u8,
        bitsize: usize,
        bitordering: Endianness,
    ) -> PackingResult<Self> {
        if bitoffset != 0 {
            Err(PackingError::BadAlignment(bitoffset as usize, "Bit offset must be at 0 on this implementation"))
        } else if bitsize != 0 {
            Err(PackingError::BadSize(bitsize, "Bit size must be at 0 on this implementation"))
        } else {
            Self::spec_unpack(src)
        }
    }

    open spec fn pack_whole_defined(len: nat) -> bool {
        true
    }

    open spec fn spec_pack(&self, data: Seq<u8>) -> PackingResult<Seq<u8>> {
        if data.len() < 10 {
            Err(PackingError::BadSize(data.len() as usize, "bilge struct needs exact size"))
        } else {
            Ok(self.bytes() + data.subrange(10, data.len() as int))
        }
    }

    open spec fn unpack_whole_defined(len: nat) -> bool {
        true
    }

    open spec fn spec_unpack(src: Seq<u8>) -> PackingResult<Self> {
        if src.len() < 10 {
            Err(PackingError::BadSize(src.len() as usize, "bilge struct needs exact size"))
        } else {
            Ok(Self::from_parts(le_value(src.subrange(0, 8)), le_value(src.subrange(8, 10))))
        }
    }

    fn pack(&self, data: &mut [u8]) -> (r: PackingResult<()>) {
        if data.len() < 10 {
            return Err(PackingError::BadSize(data.len(), "bilge struct needs exact size"));
        }
        let low = crate::numbers::le_bytes_of(self.low_bits(), 8);
        let high = crate::numbers::le_bytes_of(self.interrupt as u64, 2);
        proof {
            crate::numbers::lemma_le_bytes_len(self.low_raw(), 8);
            crate::numbers::lemma_le_bytes_len(self.interrupt as nat, 2);
        }
        let ghost d0 = data@;
        let mut i: usize = 0;
        while i < 10
            invariant
                i <= 10,
                10 <= d0.len(),
                low@.len() == 8,
                high@.len() == 2,
                data@.len() == d0.len(),
                forall|j: int| 0 <= j < d0.len() ==> #[trigger] data@[j] == if j < i {
                    (low@ + high@)[j]
                } else {
                    d0[j]
                },
            decreases 10 - i,
        {
            if i < 8 {
                data[i] = low[i];
            } else {
                data[i] = high[i - 8];
            }
            i = i + 1;
        }
        proof {
            assert(data@ =~= self.bytes() + d0.subrange(10, d0.len() as int));
        }
        Ok(())
    }

    fn unpack(src: &[u8]) -> (r: PackingResult<Self>) {
        if src.len() < 10 {
            return Err(PackingError::BadSize(src.len(), "bilge struct needs exact size"));
        }
        let low = crate::numbers::le_value_of(vstd::slice::slice_subrange(src, 0, 8));
        let high = crate::numbers::le_value_of(vstd::slice::slice_subrange(src, 8, 10));
        proof {
            crate::numbers::lemma_le_value_bound(src@.subrange(8, 10));
            lemma2_to64();
        }
        Ok(Self::from_bits(low, high as u16))
    }

    fn pack_slice(
        &self,
        data: &mut [u8],
        bitoffset: u8,
        bitsize: usize,
        bitordering: Endianness,
    ) -> (r: PackingResult<()>) {
        if bitoffset != 0 {
            return Err(PackingError::BadAlignment(bitoffset as usize, "Bit offset must be at 0 on this implementation"));
        }
        if bitsize != 0 {
            return Err(PackingError::BadSize(bitsize, "Bit size must be at 0 on this implementation"));
        }
        self.pack(data)
    }

    fn unpack_slice(src: &[u8], bitoffset: u8, bitsize: usize, bitordering: Endianness) -> (r: PackingResult<Self>) {
        if bitoffset != 0 {
            return Err(PackingError::BadAlignment(bitoffset as usize, "Bit offset must be at 0 on this implementation"));
        }
        if bitsize != 0 {
            return Err(PackingError::BadSize(bitsize, "Bit size must be at 0 on this implementation"));
        }
        Self::unpack(src)
    }
}


/// content of the address field of a PDU header, for the given destination and memory address
pub open spec fn target_address(slave: SlaveAddress, memory: u32) -> u32 {
    match slave {
        SlaveAddress::Broadcast => (MemoryAddress { slave: 0, memory: (memory % 0x10000) as u16 }).raw() as u32,
        SlaveAddress::AutoIncremented(s) => (MemoryAddress {
            slave: ((0x10000 - s) % 0x10000) as u16,
            memory: (memory % 0x10000) as u16,
        }).raw() as u32,
        SlaveAddress::Fixed(s) => (MemoryAddress { slave: s, memory: (memory % 0x10000) as u16 }).raw() as u32,
        SlaveAddress::Logical => memory,
    }
}

/// assemble the address block of a PDU with slave and memory addresses
///
/// physical memory addresses are 16 bits, only the logical memory takes a 32 bit address
pub fn pdu_target(slave: SlaveAddress, memory: u32) -> (r: u32)
    ensures
        r == target_address(slave, memory),
{
    let local = (memory % 0x10000) as u16;
    match slave {
        SlaveAddress::Broadcast => MemoryAddress { slave: 0, memory: local }.to_bits() as u32,
        SlaveAddress::AutoIncremented(s) => {
            let position: u16 = if s == 0 { 0 } else { (0x10000 - s as u32) as u16 };
            MemoryAddress { slave: position, memory: local }.to_bits() as u32
        },
        SlaveAddress::Fixed(s) => MemoryAddress { slave: s, memory: local }.to_bits() as u32,
        SlaveAddress::Logical => memory,
    }
}

/// command reading the memory of the given destination
pub fn read_command(slave: SlaveAddress) -> (r: PduCommand)
    ensures
        r == match slave {
            SlaveAddress::Broadcast => PduCommand::BRD,
            SlaveAddress::AutoIncremented(_) => PduCommand::APRD,
            SlaveAddress::Fixed(_) => PduCommand::FPRD,
            SlaveAddress::Logical => PduCommand::LRD,
        },
{
    match slave {
        SlaveAddress::Broadcast => PduCommand::BRD,
        SlaveAddress::AutoIncremented(_) => PduCommand::APRD,
        SlaveAddress::Fixed(_) => PduCommand::FPRD,
        SlaveAddress::Logical => PduCommand::LRD,
    }
}

/// command writing the memory of the given destination
pub fn write_command(slave: SlaveAddress) -> (r: PduCommand)
    ensures
        r == match slave {
            SlaveAddress::Broadcast => PduCommand::BWR,
            SlaveAddress::AutoIncremented(_) => PduCommand::APWR,
            SlaveAddress::Fixed(_) => PduCommand::FPWR,
            SlaveAddress::Logical => PduCommand::LWR,
        },
{
    match slave {
        SlaveAddress::Broadcast => PduCommand::BWR,
        SlaveAddress::AutoIncremented(_) => PduCommand::APWR,
        SlaveAddress::Fixed(_) => PduCommand::FPWR,
        SlaveAddress::Logical => PduCommand::LWR,
    }
}

/// command writing then reading the memory of the given destination
pub fn exchange_command(slave: SlaveAddress) -> (r: PduCommand)
    ensures
        r == match slave {
            SlaveAddress::Broadcast => PduCommand::BRW,
            SlaveAddress::AutoIncremented(_) => PduCommand::APRW,
            SlaveAddress::Fixed(_) => PduCommand::FPRW,
            SlaveAddress::Logical => PduCommand::LRW,
        },
{
    match slave {
        SlaveAddress::Broadcast => PduCommand::BRW,
        SlaveAddress::AutoIncremented(_) => PduCommand::APRW,
        SlaveAddress::Fixed(_) => PduCommand::FPRW,
        SlaveAddress::Logical => PduCommand::LRW,
    }
}

/// command reading the memory of one slave and writing it to all the others
///
/// read-multiple-write can only be used with a specific slave for reading
pub fn multiple_command(slave: SlaveAddress) -> (r: PduCommand)
    requires
        slave is AutoIncremented || slave is Fixed,
    ensures
        slave is AutoIncremented ==> r == PduCommand::ARMW,
        slave is Fixed ==> r == PduCommand::FRMW,
{
    match slave {
        SlaveAddress::AutoIncremented(_) => PduCommand::ARMW,
        _ => PduCommand::FRMW,
    }
}

/// container for a PDU command's answer
pub struct PduAnswer<T: PduData> {
    /// number of slaves who executed the command
    pub answers: u16,
    /// received value (will be the same as the sent value if no slave executed the command)
    pub data: T::Packed,
}

/// the error reported for an unexpected number of answering slaves, if any
pub open spec fn answers_error(answers: u16, n: u16) -> Option<&'static str> {
    if answers == n {
        None
    } else if answers == 0 {
        Some("no slave answered")
    } else if answers < n {
        Some("to few slaves answered")
    } else {
        Some("to much slaves answered")
    }
}

/// result of extracting the value of an answer once the number of answers was checked
pub open spec fn answer_result<T: PduData>(data: Seq<u8>) -> EthercatResult<T> {
    match T::spec_unpack(data) {
        Ok(v) => Ok(v),
        Err(e) => Err(EthercatError::Protocol(crate::error::packing_message(e))),
    }
}

impl<T: PduData> PduAnswer<T> {
    /// extract the value only if exactly one slave answered
    pub fn one(self) -> (r: EthercatResult<T>)
        requires
            T::unpack_whole_defined(T::Packed::spec_len()),
        ensures
            r == match answers_error(self.answers, 1) {
                Some(message) => Err(EthercatError::Protocol(message)),
                None => answer_result::<T>(self.data.spec_bytes()),
            },
    {
        self.exact(1)
    }

    /// extract the value only if the given amount of slaves answered
    pub fn exact(&self, n: u16) -> (r: EthercatResult<T>)
        requires
            T::unpack_whole_defined(T::Packed::spec_len()),
        ensures
            r == match answers_error(self.answers, n) {
                Some(message) => Err(EthercatError::Protocol(message)),
                None => answer_result::<T>(self.data.spec_bytes()),
            },
    {
        if self.answers != n {
            if self.answers == 0 {
                return Err(EthercatError::Protocol("no slave answered"));
            } else if self.answers < n {
                return Err(EthercatError::Protocol("to few slaves answered"));
            } else {
                return Err(EthercatError::Protocol("to much slaves answered"));
            }
        }
        match self.value() {
            Ok(v) => Ok(v),
            Err(e) => Err(EthercatError::from(e)),
        }
    }

    /// extract the value if any slave answered
    pub fn any(&self) -> (r: EthercatResult<T>)
        requires
            T::unpack_whole_defined(T::Packed::spec_len()),
        ensures
            r == if self.answers == 0 {
                Err(EthercatError::Protocol("no slave answered"))
            } else {
                answer_result::<T>(self.data.spec_bytes())
            },
    {
        if self.answers == 0 {
            return Err(EthercatError::Protocol("no slave answered"));
        }
        match self.value() {
            Ok(v) => Ok(v),
            Err(e) => Err(EthercatError::from(e)),
        }
    }

    /// extract the value, whatever it is and if slaves answered or not
    pub fn value(&self) -> (r: PackingResult<T>)
        requires
            T::unpack_whole_defined(T::Packed::spec_len()),
        ensures
            r == T::spec_unpack(self.data.spec_bytes()),
    {
        T::unpack(self.data.as_bytes())
    }
}


/// the buffer with `bytes` written from position `at`
pub open spec fn splice(buf: Seq<u8>, at: int, bytes: Seq<u8>) -> Seq<u8> {
    buf.subrange(0, at) + bytes + buf.subrange(at + bytes.len(), buf.len() as int)
}

/// write `bytes` in the buffer from position `at`
pub fn write_at(buf: &mut Vec<u8>, at: usize, bytes: &[u8])
    requires
        at + bytes@.len() <= old(buf)@.len(),
    ensures
        final(buf)@ == splice(old(buf)@, at as int, bytes@),
{
    let ghost b0 = buf@;
    let total = buf.len();
    let mut i: usize = 0;
    while i < bytes.len()
        invariant
            total == b0.len(),
            at + bytes@.len() <= b0.len(),
            buf@.len() == b0.len(),
            i <= bytes@.len(),
            forall|j: int| 0 <= j < b0.len() ==> #[trigger] buf@[j] == if at <= j < at + i {
                bytes@[j - at]
            } else {
                b0[j]
            },
        decreases bytes@.len() - i,
    {
        buf.set(at + i, bytes[i]);
        i = i + 1;
    }
    proof {
        assert(buf@ =~= splice(b0, at as int, bytes@));
    }
}

/// a PDU header is 10 bytes on the wire
pub proof fn lemma_header_bytes_len(h: PduHeader)
    ensures
        h.bytes().len() == PDU_HEADER_SIZE,
{
    crate::numbers::lemma_le_bytes_len(h.low_raw(), 8);
    crate::numbers::lemma_le_bytes_len(h.interrupt as nat, 2);
}

impl PduHeader {
    /// bytes of the header on the wire
    pub fn to_bytes(&self) -> (r: Vec<u8>)
        ensures
            r@ == self.bytes(),
            r@.len() == PDU_HEADER_SIZE,
    {
        proof {
            lemma_header_bytes_len(*self);
        }
        let mut r = crate::numbers::le_bytes_of(self.low_bits(), 8);
        let mut high = crate::numbers::le_bytes_of(self.interrupt as u64, 2);
        r.append(&mut high);
        r
    }
}

/// bytes of a PDU on the wire: its header, its data and its footer with no answer counted
pub open spec fn pdu_bytes(command: PduCommand, token: u8, target: u32, data: Seq<u8>) -> Seq<u8> {
    PduHeader {
        command,
        token,
        address: target,
        len: data.len() as u16,
        reserved: 0,
        circulating: false,
        next: false,
        interrupt: 0,
    }.bytes() + data + le_bytes(0, 2)
}

/// the header read from the 10 bytes at position `at`
pub open spec fn header_at(buf: Seq<u8>, at: int) -> PduHeader {
    PduHeader::from_parts(le_value(buf.subrange(at, at + 8)), le_value(buf.subrange(at + 8, at + 10)))
}

/// what sending a PDU does with the frame being assembled
#[derive(Copy, Clone, Debug, PartialEq, Eq, Structural)]
pub enum StackOutcome {
    /// the frame is waiting for being sent, nothing can be added before it is
    Busy,
    /// the PDU does not fit in the frame, which is now marked ready for sending
    Full,
    /// the PDU was added to the frame
    Stacked,
}

/// the frame being assembled for sending, and the place of its last PDU
pub struct SendState {
    /// start of the last PDU stacked in the frame
    pub last_start: usize,
    /// end of the PDUs stacked in the frame, or zero when none is stacked
    pub last_end: usize,
    /// the frame is complete and waits for sending
    pub ready: bool,
    /// buffer of the frame, starting with the ethercat header
    pub send: Vec<u8>,
}

/// size of the ethercat frame header
pub const ETHERCAT_HEADER_SIZE: usize = 2;
/// size of a PDU header
pub const PDU_HEADER_SIZE: usize = 10;
/// size of a PDU footer
pub const PDU_FOOTER_SIZE: usize = 2;

impl SendState {
    /// the buffer has the size of a frame, and the last PDU lies inside the frame when there is one
    pub open spec fn wf(&self) -> bool {
        &&& self.send@.len() == MAX_ETHERCAT_FRAME
        &&& self.last_end == 0 ==> self.last_start == ETHERCAT_HEADER_SIZE
        &&& self.last_end != 0 ==> ETHERCAT_HEADER_SIZE <= self.last_start && self.last_start
            + PDU_HEADER_SIZE + PDU_FOOTER_SIZE <= self.last_end <= MAX_ETHERCAT_FRAME
    }

    /// an empty frame
    pub fn new() -> (r: Self)
        ensures
            r.wf(),
            r.last_end == 0,
            !r.ready,
    {
        let mut send: Vec<u8> = Vec::new();
        let mut i: usize = 0;
        while i < MAX_ETHERCAT_FRAME
            invariant
                i <= MAX_ETHERCAT_FRAME,
                send@.len() == i,
            decreases MAX_ETHERCAT_FRAME - i,
        {
            send.push(0);
            i = i + 1;
        }
        SendState { last_start: ETHERCAT_HEADER_SIZE, last_end: 0, ready: false, send }
    }

    /// mark the frame ready for sending if it holds PDUs, returns true if so
    ///
    /// the sending task has then to be notified
    pub fn flush(&mut self) -> (r: bool)
        ensures
            r == (old(self).last_end != 0),
            final(self).ready == (old(self).ready || r),
            final(self).last_start == old(self).last_start,
            final(self).last_end == old(self).last_end,
            final(self).send@ == old(self).send@,
    {
        if self.last_end != 0 {
            self.ready = true;
            true
        } else {
            false
        }
    }

    /// the PDU of `data_len` bytes fits in the frame, for a socket accepting frames of `max_frame` bytes
    pub open spec fn fits(&self, max_frame: usize, data_len: nat) -> bool {
        max_frame > (if self.last_end >= self.last_start { self.last_end } else { self.last_start }) + data_len
            + PDU_HEADER_SIZE + PDU_FOOTER_SIZE
    }

    /// the frame after stacking a PDU
    pub open spec fn stacked(&self, command: PduCommand, token: u8, target: u32, data: Seq<u8>) -> Seq<u8> {
        let s0 = self.send@;
        let previous = self.last_start <= self.last_end;
        let s1 = if previous {
            splice(s0, self.last_start as int, (PduHeader { next: true, ..header_at(s0, self.last_start as int) }).bytes())
        } else {
            s0
        };
        let at = if previous { self.last_end } else { self.last_start };
        splice(s1, at as int, pdu_bytes(command, token, target, data))
    }

    /**
        add a PDU to the frame being assembled, if there is room for it and the frame is not waiting for being sent

        the PDU before it in the frame is marked as followed by an other
    */
    pub fn stack(&mut self, max_frame: usize, command: PduCommand, token: u8, target: u32, data: &[u8]) -> (r: StackOutcome)
        requires
            old(self).wf(),
            max_frame <= MAX_ETHERCAT_FRAME,
        ensures
            final(self).wf(),
            old(self).ready ==> r == StackOutcome::Busy && *final(self) == *old(self),
            !old(self).ready && !old(self).fits(max_frame, data@.len()) ==> r == StackOutcome::Full
                && final(self).ready && final(self).last_start == old(self).last_start && final(self).last_end
                == old(self).last_end && final(self).send@ == old(self).send@,
            !old(self).ready && old(self).fits(max_frame, data@.len()) ==> {
                let at = if old(self).last_start <= old(self).last_end { old(self).last_end } else { old(self).last_start };
                &&& r == StackOutcome::Stacked
                &&& !final(self).ready
                &&& final(self).last_start == at
                &&& final(self).last_end == at + PDU_HEADER_SIZE + data@.len() + PDU_FOOTER_SIZE
                &&& final(self).send@ == old(self).stacked(command, token, target, data@)
            },
    {
        if self.ready {
            return StackOutcome::Busy;
        }
        let top = if self.last_end >= self.last_start { self.last_end } else { self.last_start };
        if data.len() >= max_frame || !(max_frame > top + data.len() + PDU_HEADER_SIZE + PDU_FOOTER_SIZE) {
            self.ready = true;
            return StackOutcome::Full;
        }
        // change last value's PduHeader.next
        let ghost s0 = self.send@;
        let ghost ls = self.last_start as int;
        if self.last_start <= self.last_end {
            let place = vstd::slice::slice_subrange(self.send.as_slice(), self.last_start, self.last_end);
            proof {
                assert(place@.subrange(0, 8) =~= s0.subrange(ls, ls + 8));
                assert(place@.subrange(8, 10) =~= s0.subrange(ls + 8, ls + 10));
            }
            match PduHeader::unpack(place) {
                Ok(header) => {
                    assert(header == header_at(s0, ls));
                    let mut header = header;
                    header.next = true;
                    let bytes = header.to_bytes();
                    write_at(&mut self.send, self.last_start, bytes.as_slice());
                },
                Err(_) => {
                    assert(false);
                },
            }
        } else {
            self.last_end = self.last_start;
        }
        // stacking the PDU
        let header = PduHeader::new(command, token, target, data.len() as u16, false, false, 0);
        let at = self.last_end;
        let mut bytes = header.to_bytes();
        let mut i: usize = 0;
        let ghost h = bytes@;
        while i < data.len()
            invariant
                i <= data@.len(),
                bytes@ == h + data@.subrange(0, i as int),
            decreases data@.len() - i,
        {
            bytes.push(data[i]);
            i = i + 1;
        }
        let mut footer = crate::numbers::le_bytes_of(0, 2);
        bytes.append(&mut footer);
        proof {
            assert(data@.subrange(0, data@.len() as int) =~= data@);
            crate::numbers::lemma_le_bytes_len(0, 2);
        }
        proof {
            assert(bytes@ =~= pdu_bytes(command, token, target, data@));
        }
        write_at(&mut self.send, at, bytes.as_slice());
        self.last_start = at;
        self.last_end = at + bytes.len();
        StackOutcome::Stacked
    }
}

impl SendState {
    /// the ethercat frame header announcing the PDUs of the frame
    pub open spec fn frame_header(&self) -> EthercatHeader {
        EthercatHeader { len: (self.last_end - ETHERCAT_HEADER_SIZE) as u16, reserved: false, ty: 0x1 }
    }

    /**
        write the ethercat header of the frame, and return the size of the frame to send

        the frame is marked ready so that nothing is stacked in it until [Self::sent] is called
    */
    pub fn finish(&mut self) -> (r: usize)
        requires
            old(self).wf(),
            old(self).last_end != 0,
        ensures
            final(self).wf(),
            final(self).ready,
            r == old(self).last_end,
            final(self).last_start == old(self).last_start,
            final(self).last_end == old(self).last_end,
            final(self).send@ == splice(
                old(self).send@,
                0,
                crate::numbers::le_bytes(old(self).frame_header().raw(), 2),
            ),
    {
        self.ready = true;
        let header = EthercatHeader {
            len: (self.last_end - ETHERCAT_HEADER_SIZE) as u16,
            reserved: false,
            ty: EthercatType::PDU.code(),
        };
        let bytes = crate::numbers::le_bytes_of(header.to_bits(), 2);
        proof {
            crate::numbers::lemma_le_bytes_len(header.raw(), 2);
        }
        write_at(&mut self.send, 0, bytes.as_slice());
        self.last_end
    }

    /// reset the frame once it has been sent
    pub fn sent(&mut self)
        requires
            old(self).send@.len() == MAX_ETHERCAT_FRAME,
        ensures
            final(self).wf(),
            !final(self).ready,
            final(self).last_end == 0,
            final(self).send@ == old(self).send@,
    {
        self.ready = false;
        self.last_end = 0;
        self.last_start = ETHERCAT_HEADER_SIZE;
    }
}

/// A PDU stacked in the frame reads back from it: its header announces its command, token,
/// address and size, with no PDU following it, and its data follows the header.
pub proof fn law_stacked_pdu_reads_back(state: SendState, max_frame: usize, command: PduCommand, token: u8, target: u32, data: Seq<u8>)
    requires
        state.wf(),
        max_frame <= MAX_ETHERCAT_FRAME,
        state.fits(max_frame, data.len()),
    ensures
        ({
            let at = if state.last_start <= state.last_end { state.last_end } else { state.last_start } as int;
            let frame = state.stacked(command, token, target, data);
            &&& header_at(frame, at) == (PduHeader {
                command,
                token,
                address: target,
                len: data.len() as u16,
                reserved: 0,
                circulating: false,
                next: false,
                interrupt: 0,
            })
            &&& frame.subrange(at + PDU_HEADER_SIZE, at + PDU_HEADER_SIZE + data.len()) == data
        }),
{
    let at = if state.last_start <= state.last_end { state.last_end } else { state.last_start } as int;
    let h = PduHeader {
        command,
        token,
        address: target,
        len: data.len() as u16,
        reserved: 0,
        circulating: false,
        next: false,
        interrupt: 0,
    };
    let s0 = state.send@;
    let s1 = if state.last_start <= state.last_end {
        splice(s0, state.last_start as int, (PduHeader { next: true, ..header_at(s0, state.last_start as int) }).bytes())
    } else {
        s0
    };
    lemma_header_bytes_len(PduHeader { next: true, ..header_at(s0, state.last_start as int) });
    lemma_header_bytes_len(h);
    crate::numbers::lemma_le_bytes_len(0, 2);
    let bytes = pdu_bytes(command, token, target, data);
    let frame = splice(s1, at, bytes);
    assert(frame.subrange(at, at + 8) =~= crate::numbers::le_bytes(h.low_raw(), 8));
    assert(frame.subrange(at + 8, at + 10) =~= crate::numbers::le_bytes(0, 2));
    assert(frame.subrange(at + PDU_HEADER_SIZE, at + PDU_HEADER_SIZE + data.len()) =~= data);
    crate::numbers::lemma_le_value_of_bytes(h.low_raw(), 8);
    crate::numbers::lemma_le_value_of_bytes(0, 2);
    lemma2_to64();
    lemma2_to64_rest();
    assert(h.low_raw() < pow2(64)) by {
        assert(h.low_raw() <= 0xffffffffffffffff);
    }
    vstd::arithmetic::div_mod::lemma_small_mod(h.low_raw(), pow2(64));
    law_pdu_header_roundtrip(h);
}


/// a PDU answer found in a received frame, for a token waiting for it
#[derive(Copy, Clone, Debug, PartialEq, Eq, Structural)]
pub struct Delivery {
    /// token of the PDU
    pub token: usize,
    /// start of the PDU data in the frame
    pub start: usize,
    /// size of the PDU data
    pub len: usize,
    /// working count of the PDU plus one (saturating), zero being kept for "not received"
    pub ready: u16,
}

/// the PDUs following the one whose header ends at `pos`, when `next` says whether there is one
pub open spec fn parse_next(pending: Seq<bool>, frame: Seq<u8>, pos: nat, next: bool) -> (Seq<Delivery>, Result<(), &'static str>)
    decreases frame.len() - pos, 1nat,
{
    if !next {
        (Seq::empty(), Ok(()))
    } else if pos >= frame.len() {
        (Seq::empty(), Err("inconsistent ethercat frame size: remaining unused data after PDUs"))
    } else {
        parse_pdus(pending, frame, pos)
    }
}

/**
    the answers found in the PDUs of a frame starting at `pos`, for the tokens waiting for them,
    and whether the whole frame could be read

    the data of a PDU whose token is not waiting is not skipped: the next header is read right after its header
*/
pub open spec fn parse_pdus(pending: Seq<bool>, frame: Seq<u8>, pos: nat) -> (Seq<Delivery>, Result<(), &'static str>)
    decreases frame.len() - pos, 0nat,
{
    if pos + PDU_HEADER_SIZE > frame.len() {
        (Seq::empty(), Err("unable to unpack PDU header, skiping all remaning PDUs in frame"))
    } else {
        let header = header_at(frame, pos as int);
        let content = pos + PDU_HEADER_SIZE;
        let len = header.len as nat;
        if header.token >= pending.len() {
            (Seq::empty(), Err("received inconsistent PDU token"))
        } else if pending[header.token as int] {
            if content + len > frame.len() {
                (Seq::empty(), Err("PDU size mismatch"))
            } else if content + len + PDU_FOOTER_SIZE > frame.len() {
                (Seq::empty(), Err("unable to unpack PDU footer"))
            } else {
                let count = le_value(frame.subrange(content + len, content + len + PDU_FOOTER_SIZE));
                let delivery = Delivery {
                    token: header.token as usize,
                    start: content as usize,
                    len: len as usize,
                    ready: if count + 1 > 0xffff { 0xffff } else { (count + 1) as u16 },
                };
                let rest = parse_next(pending, frame, (content + len + PDU_FOOTER_SIZE) as nat, header.next);
                (seq![delivery] + rest.0, rest.1)
            }
        } else {
            parse_next(pending, frame, content as nat, header.next)
        }
    }
}

/**
    extract the PDUs of a received frame (content of an ethercat frame of type PDU)

    returns the answers found for the tokens waiting for them, in the frame order, and whether the
    whole frame could be read. In case something goes wrong during PDUs unpacking, the answers
    successfully processed before are returned still.
*/
pub fn pdu_receive(pending: &[bool], frame: &[u8]) -> (r: (Vec<Delivery>, EthercatResult<()>))
    ensures
        r.0@ == parse_pdus(pending@, frame@, 0).0,
        match parse_pdus(pending@, frame@, 0).1 {
            Ok(()) => r.1 is Ok,
            Err(message) => r.1 == Err::<(), EthercatError>(EthercatError::Protocol(message)),
        },
{
    let mut deliveries: Vec<Delivery> = Vec::new();
    let mut pos: usize = 0;
    let flen = frame.len();
    loop
        invariant
            flen == frame@.len(),
            pos <= frame@.len(),
            parse_pdus(pending@, frame@, 0).0 == deliveries@ + parse_pdus(pending@, frame@, pos as nat).0,
            parse_pdus(pending@, frame@, 0).1 == parse_pdus(pending@, frame@, pos as nat).1,
        decreases frame@.len() - pos,
    {
        let ghost step = parse_pdus(pending@, frame@, pos as nat);
        if flen - pos < PDU_HEADER_SIZE {
            proof {
                assert(step.0 =~= Seq::<Delivery>::empty());
                assert(deliveries@ + step.0 =~= deliveries@);
            }
            return (deliveries, Err(EthercatError::Protocol("unable to unpack PDU header, skiping all remaning PDUs in frame")));
        }
        let place = vstd::slice::slice_subrange(frame, pos, pos + PDU_HEADER_SIZE);
        proof {
            assert(place@.subrange(0, 8) =~= frame@.subrange(pos as int, pos + 8));
            assert(place@.subrange(8, 10) =~= frame@.subrange(pos + 8, pos + 10));
        }
        let header = match PduHeader::unpack(place) {
            Ok(header) => header,
            Err(_) => {
                proof {
                    assert(false);
                }
                return (deliveries, Err(EthercatError::Protocol("unable to unpack PDU header, skiping all remaning PDUs in frame")));
            },
        };
        let ghost spec_header = header_at(frame@, pos as int);
        assert(header == spec_header);
        let content = pos + PDU_HEADER_SIZE;
        let token = header.token as usize;
        if token >= pending.len() {
            proof {
                assert(step.0 =~= Seq::<Delivery>::empty());
                assert(deliveries@ + step.0 =~= deliveries@);
            }
            return (deliveries, Err(EthercatError::Protocol("received inconsistent PDU token")));
        }
        let len = header.len as usize;
        let next_pos: usize;
        if pending[token] {
            if len > flen - content {
                proof {
                    assert(step.0 =~= Seq::<Delivery>::empty());
                    assert(deliveries@ + step.0 =~= deliveries@);
                }
                return (deliveries, Err(EthercatError::Protocol("PDU size mismatch")));
            }
            if PDU_FOOTER_SIZE > flen - content - len {
                proof {
                    assert(step.0 =~= Seq::<Delivery>::empty());
                    assert(deliveries@ + step.0 =~= deliveries@);
                }
                return (deliveries, Err(EthercatError::Protocol("unable to unpack PDU footer")));
            }
            let footer = vstd::slice::slice_subrange(frame, content + len, content + len + PDU_FOOTER_SIZE);
            let count = crate::numbers::le_value_of(footer);
            proof {
                crate::numbers::lemma_le_value_bound(footer@);
                lemma2_to64();
            }
            let ready: u16 = if count + 1 > 0xffff { 0xffff } else { (count + 1) as u16 };
            let delivery = Delivery { token, start: content, len, ready };
            let ghost rest = parse_next(pending@, frame@, (content + len + PDU_FOOTER_SIZE) as nat, header.next);
            proof {
                assert(step == (seq![delivery] + rest.0, rest.1));
            }
            let ghost before = deliveries@;
            deliveries.push(delivery);
            proof {
                assert(deliveries@ + rest.0 =~= before + step.0);
            }
            next_pos = content + len + PDU_FOOTER_SIZE;
            proof {
                assert(step.1 == rest.1);
            }
        } else {
            next_pos = content;
            proof {
                assert(step == parse_next(pending@, frame@, content as nat, header.next));
            }
        }
        let ghost follow = parse_next(pending@, frame@, next_pos as nat, header.next);
        if !header.next {
            proof {
                assert(follow.0 =~= Seq::<Delivery>::empty());
                assert(deliveries@ + follow.0 =~= deliveries@);
            }
            return (deliveries, Ok(()));
        }
        if next_pos >= flen {
            proof {
                assert(follow.0 =~= Seq::<Delivery>::empty());
                assert(deliveries@ + follow.0 =~= deliveries@);
            }
            return (deliveries, Err(EthercatError::Protocol("inconsistent ethercat frame size: remaining unused data after PDUs")));
        }
        proof {
            assert(follow == parse_pdus(pending@, frame@, next_pos as nat));
        }
        pos = next_pos;
    }
}


/// the ethercat header of a received frame, and the size of the content it announces
///
/// the content starts right after the header
pub fn frame_content(frame: &[u8]) -> (r: EthercatResult<(EthercatHeader, usize)>)
    ensures
        frame@.len() < ETHERCAT_HEADER_SIZE ==> r == Err::<(EthercatHeader, usize), EthercatError>(
            EthercatError::Protocol("bilge struct needs exact size"),
        ),
        frame@.len() >= ETHERCAT_HEADER_SIZE ==> {
            let header = EthercatHeader::from_raw(le_value(frame@.subrange(0, 2)));
            if frame@.len() - ETHERCAT_HEADER_SIZE < header.len {
                r == Err::<(EthercatHeader, usize), EthercatError>(
                    EthercatError::Protocol("received frame header has inconsistent length"),
                )
            } else {
                r == Ok::<(EthercatHeader, usize), EthercatError>((header, header.len as usize))
            }
        },
{
    let header = match EthercatHeader::unpack(frame) {
        Ok(header) => header,
        Err(e) => {
            return Err(EthercatError::from(e));
        },
    };
    if frame.len() - ETHERCAT_HEADER_SIZE < header.len as usize {
        return Err(EthercatError::Protocol("received frame header has inconsistent length"));
    }
    Ok((header, header.len as usize))
}

/// number of PDU tokens, so that PDUs of two frames can be in flight at once
pub const TOKENS: usize = 2 * MAX_ETHERCAT_PDU;

/// the tokens free for new PDUs, held in a vector of fixed capacity [TOKENS]
#[verifier::external_body]
pub struct FreeTokens {
    tokens: heapless::Vec<usize, TOKENS>,
}

/// the tokens held by a [FreeTokens], the last one being the next one taken
pub uninterp spec fn free_tokens(v: FreeTokens) -> Seq<usize>;

/// `heapless::Vec::new`: the vector starts empty
#[verifier::external_body]
fn free_tokens_new() -> (r: FreeTokens)
    ensures
        free_tokens(r) == Seq::<usize>::empty(),
{
    FreeTokens { tokens: heapless::Vec::new() }
}

/// `heapless::Vec::push`: the token is appended if the vector is below its capacity [TOKENS], and handed back otherwise
#[verifier::external_body]
fn free_tokens_push(v: &mut FreeTokens, token: usize) -> (r: Result<(), usize>)
    ensures
        free_tokens(*old(v)).len() < TOKENS ==> r is Ok && free_tokens(*final(v)) == free_tokens(*old(v)).push(token),
        free_tokens(*old(v)).len() >= TOKENS ==> (r matches Err(t) && t == token) && free_tokens(*final(v)) == free_tokens(*old(v)),
{
    v.tokens.push(token)
}

/// `heapless::Vec::pop`: the last token is removed and returned, if there is one
#[verifier::external_body]
fn free_tokens_pop(v: &mut FreeTokens) -> (r: Option<usize>)
    ensures
        free_tokens(*old(v)).len() == 0 ==> r is None && free_tokens(*final(v)) == free_tokens(*old(v)),
        free_tokens(*old(v)).len() > 0 ==> r == Some(free_tokens(*old(v)).last())
            && free_tokens(*final(v)) == free_tokens(*old(v)).drop_last(),
{
    v.tokens.pop()
}

/// a sequence of distinct tokens, all below [TOKENS] and other than `token`, holds less than [TOKENS] of them
proof fn lemma_free_tokens_bound(s: Seq<usize>, token: usize)
    requires
        token < TOKENS,
        s.no_duplicates(),
        forall|i: int| 0 <= i < s.len() ==> #[trigger] s[i] < TOKENS && s[i] != token,
    ensures
        s.len() < TOKENS,
{
    let ints = s.map_values(|x: usize| x as int);
    assert(ints.no_duplicates()) by {
        assert forall|i: int, j: int| 0 <= i < ints.len() && 0 <= j < ints.len() && i != j implies ints[i] != ints[j] by {
            assert(s[i] != s[j]);
        }
    }
    ints.unique_seq_to_set();
    let range = vstd::set_lib::set_int_range(0, TOKENS as int).remove(token as int);
    vstd::set_lib::lemma_int_range(0, TOKENS as int);
    assert(ints.to_set().subset_of(range)) by {
        assert forall|x: int| ints.to_set().contains(x) implies range.contains(x) by {
            let k = choose|k: int| 0 <= k < ints.len() && ints[k] == x;
            assert(s[k] < TOKENS && s[k] != token);
        }
    }
    vstd::set_lib::lemma_len_subset(ints.to_set(), range);
}

/// the tokens identifying the PDUs in flight, and the free ones
pub struct TokenPool {
    /// tokens free for new PDUs
    pub free: FreeTokens,
    /// whether each token is in use
    pub used: Vec<bool>,
}

impl TokenPool {
    /// each token is either in use or free, and present once in the free ones
    pub open spec fn wf(&self) -> bool {
        let free = free_tokens(self.free);
        &&& self.used@.len() == TOKENS
        &&& forall|i: int| 0 <= i < free.len() ==> #[trigger] free[i] < TOKENS && !self.used@[free[i] as int]
        &&& free.no_duplicates()
        &&& forall|t: int| 0 <= t < TOKENS && !#[trigger] self.used@[t] ==> free.contains(t as usize)
    }

    /// all the tokens free
    pub fn new() -> (r: Self)
        ensures
            r.wf(),
            forall|t: int| 0 <= t < TOKENS ==> !r.used@[t],
    {
        let mut free = free_tokens_new();
        let mut used: Vec<bool> = Vec::new();
        let mut i: usize = 0;
        while i < TOKENS
            invariant
                i <= TOKENS,
                free_tokens(free).len() == i,
                used@.len() == i,
                forall|j: int| 0 <= j < i ==> free_tokens(free)[j] == j && !used@[j],
            decreases TOKENS - i,
        {
            let pushed = free_tokens_push(&mut free, i);
            used.push(false);
            i = i + 1;
        }
        proof {
            let f = free_tokens(free);
            assert forall|t: int| 0 <= t < TOKENS && !#[trigger] used@[t] implies f.contains(t as usize) by {
                assert(f[t] == t);
            }
        }
        TokenPool { free, used }
    }

    /// take a free token, if there is one, and mark it in use
    pub fn reserve(&mut self) -> (r: Option<usize>)
        requires
            old(self).wf(),
        ensures
            final(self).wf(),
            match r {
                Some(t) => t < TOKENS && !old(self).used@[t as int] && final(self).used@ == old(self).used@.update(t as int, true),
                None => final(self).used@ == old(self).used@ && forall|t: int| 0 <= t < TOKENS ==> old(self).used@[t],
            },
    {
        let ghost old_free = free_tokens(self.free);
        match free_tokens_pop(&mut self.free) {
            Some(token) => {
                proof {
                    assert(old_free[old_free.len() - 1] == token);
                }
                self.used.set(token, true);
                proof {
                    let free = free_tokens(self.free);
                    assert(free =~= old_free.drop_last());
                    assert forall|t: int| 0 <= t < TOKENS && !#[trigger] self.used@[t] implies free.contains(t as usize) by {
                        assert(old_free.contains(t as usize));
                        let k = choose|k: int| 0 <= k < old_free.len() && old_free[k] == t as usize;
                        assert(k != old_free.len() - 1);
                        assert(free[k] == t as usize);
                    }
                    assert forall|i: int| 0 <= i < free.len() implies #[trigger] free[i] < TOKENS && !self.used@[free[i] as int] by {
                        assert(free[i] == old_free[i]);
                        assert(old_free[i] != old_free[old_free.len() - 1]);
                    }
                }
                Some(token)
            },
            None => {
                proof {
                    assert forall|t: int| 0 <= t < TOKENS implies old(self).used@[t] by {
                        if !old(self).used@[t] {
                            assert(old_free.contains(t as usize));
                        }
                    }
                }
                None
            },
        }
    }

    /// give back a token once its PDU is done with, if it was in use
    pub fn release(&mut self, token: usize)
        requires
            old(self).wf(),
            token < TOKENS,
        ensures
            final(self).wf(),
            final(self).used@ == old(self).used@.update(token as int, false),
    {
        if self.used[token] {
            let ghost old_free = free_tokens(self.free);
            proof {
                lemma_free_tokens_bound(old_free, token);
            }
            self.used.set(token, false);
            let pushed = free_tokens_push(&mut self.free, token);
            proof {
                let free = free_tokens(self.free);
                assert(free == old_free.push(token));
                assert forall|i: int| 0 <= i < free.len() implies #[trigger] free[i] < TOKENS && !self.used@[free[i] as int] by {
                    if i < old_free.len() {
                        assert(free[i] == old_free[i]);
                    }
                }
                assert forall|i: int, j: int| 0 <= i < free.len() && 0 <= j < free.len() && i != j implies free[i] != free[j] by {
                    if j == old_free.len() {
                        assert(free[i] == old_free[i]);
                        assert(!old(self).used@[old_free[i] as int]);
                    } else if i == old_free.len() {
                        assert(free[j] == old_free[j]);
                        assert(!old(self).used@[old_free[j] as int]);
                    } else {
                        assert(free[i] == old_free[i] && free[j] == old_free[j]);
                    }
                }
                assert forall|t: int| 0 <= t < TOKENS && !#[trigger] self.used@[t] implies free.contains(t as usize) by {
                    if t == token {
                        assert(free[old_free.len() as int] == token);
                    } else {
                        assert(old_free.contains(t as usize));
                        let k = choose|k: int| 0 <= k < old_free.len() && old_free[k] == t as usize;
                        assert(free[k] == t as usize);
                    }
                }
            }
        } else {
            proof {
                assert(old(self).used@.update(token as int, false) =~= old(self).used@);
            }
        }
    }
}

/// what the sending task does with the frame being assembled
#[derive(Copy, Clone, Debug, PartialEq, Eq, Structural)]
pub enum SendAction {
    /// nothing to send: wait for a PDU
    Wait,
    /// wait for more PDUs to merge in the frame, until the merge delay elapses or the frame is marked ready
    Merge,
    /// send the frame
    Send,
}

/**
    the decision of the sending task: a frame holding PDUs is sent once marked ready (flushed or full), or once the
    merge delay since its first PDU elapsed; before that, more PDUs may join it, so that several PDUs share a frame
*/
pub fn send_decision(has_data: bool, flushed: bool, merge_elapsed: bool) -> (r: SendAction)
    ensures
        r == if !has_data {
            SendAction::Wait
        } else if flushed || merge_elapsed {
            SendAction::Send
        } else {
            SendAction::Merge
        },
{
    if !has_data {
        SendAction::Wait
    } else if flushed || merge_elapsed {
        SendAction::Send
    } else {
        SendAction::Merge
    }
}

} // verus!
