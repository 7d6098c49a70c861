/*!
    SII (Slave Information Interface) allows to retreive from EEPROM declarative informations about a slave (like a manifest) like product code, vendor, etc as well as slave boot-up configs.

    The EEPROM has 2 regions of data:

    - EEPROM registers: fixed addresses, located by the `eeprom_*` fields here
    - EEPROM categories: contiguous data blocks, described by the `Category*` structs here and walked with [SiiCursor]

    The transactions with the slave are driven by the caller: [Sii] decides what to write in the SII registers, when an operation is over, what an answer means, and where the bytes read land.

    ETG.1000.4.6.6.4, ETG.2010
*/
use vstd::prelude::*;
use vstd::arithmetic::power2::*;
use vstd::arithmetic::power2::{lemma2_to64, lemma2_to64_rest};
use crate::data::{
    PduData, Storage, TypeId, Endianness, PackingError, PackingResult, Field, bit,
    bits_pack_result, bits_unpack_result, bits_pack_slice_result, bits_unpack_slice_result,
    pack_bits, unpack_bits,
};
use crate::error::EthercatError;
use crate::rawmaster::SlaveAddress;
use crate::registers::{SiiControl, SiiAccess, MailboxSupport};

verus! {

/// size in bytes of an EEPROM word, the unit of the addresses used on the SII
pub const WORD: u16 = 2;

/// byte address in the EEPROM of the first category
pub const CATEGORIES: u16 = 0x80;

/// EEPROM register: Initialization value for PDI Control register (0x140 - 0x141)
pub fn eeprom_pdi_control() -> (r: Field<u16>)
    ensures
        r.offset == 0x0,
        r.len == <u16 as PduData>::Packed::spec_len(),
        r.endian == Endianness::Little,
{
    Field::simple(0x0)
}

/// EEPROM register: Initialization value for PDI Configuration register (0x150-0x151)
pub fn eeprom_pdi_config() -> (r: Field<u16>)
    ensures
        r.offset == 0x2,
        r.len == <u16 as PduData>::Packed::spec_len(),
        r.endian == Endianness::Little,
{
    Field::simple(0x2)
}

/// EEPROM register: Sync Impulse in multiples of 10 ns
pub fn eeprom_sync_impulse() -> (r: Field<u16>)
    ensures
        r.offset == 0x4,
        r.len == <u16 as PduData>::Packed::spec_len(),
        r.endian == Endianness::Little,
{
    Field::simple(0x4)
}

/// EEPROM register: intialization value for PDI Configuration register R8 most significant word (0x152-0x153)
pub fn eeprom_pdi_config2() -> (r: Field<u16>)
    ensures
        r.offset == 0x6,
        r.len == <u16 as PduData>::Packed::spec_len(),
        r.endian == Endianness::Little,
{
    Field::simple(0x6)
}

/// EEPROM register: Alias Address
pub fn eeprom_address_alias() -> (r: Field<u16>)
    ensures
        r.offset == 0x8,
        r.len == <u16 as PduData>::Packed::spec_len(),
        r.endian == Endianness::Little,
{
    Field::simple(0x8)
}

/// EEPROM register: low byte contains remainder of division of word 0 to word 6 as unsigned number divided by the polynomial x^8+x^2+x+1(initial value 0xFF)
pub fn eeprom_checksum() -> (r: Field<u16>)
    ensures
        r.offset == 0xe,
        r.len == <u16 as PduData>::Packed::spec_len(),
        r.endian == Endianness::Little,
{
    Field::simple(0xe)
}

/// EEPROM register: unique id of the vendor (normalized by ETG)
pub fn eeprom_device_vendor() -> (r: Field<u32>)
    ensures
        r.offset == 0x10,
        r.len == <u32 as PduData>::Packed::spec_len(),
        r.endian == Endianness::Little,
{
    Field::simple(0x10)
}

/// EEPROM register: unique id of the product (normalized by the vendor)
pub fn eeprom_device_product() -> (r: Field<u32>)
    ensures
        r.offset == 0x14,
        r.len == <u32 as PduData>::Packed::spec_len(),
        r.endian == Endianness::Little,
{
    Field::simple(0x14)
}

/// EEPROM register: unique id of the product revision (normalized by the vendor)
pub fn eeprom_device_revision() -> (r: Field<u32>)
    ensures
        r.offset == 0x18,
        r.len == <u32 as PduData>::Packed::spec_len(),
        r.endian == Endianness::Little,
{
    Field::simple(0x18)
}

/// EEPROM register: unique serial number of the product (normalized by the vendor)
pub fn eeprom_device_serial_number() -> (r: Field<u32>)
    ensures
        r.offset == 0x1c,
        r.len == <u32 as PduData>::Packed::spec_len(),
        r.endian == Endianness::Little,
{
    Field::simple(0x1c)
}

/// EEPROM register: Send Mailbox Offset for Bootstrap state (slave to master)
pub fn eeprom_mailbox_bootstrap_write_offset() -> (r: Field<u16>)
    ensures
        r.offset == 0x28,
        r.len == <u16 as PduData>::Packed::spec_len(),
        r.endian == Endianness::Little,
{
    Field::simple(0x28)
}

/// EEPROM register: Send Mailbox Size for Bootstrap state (slave to master)
pub fn eeprom_mailbox_bootstrap_write_size() -> (r: Field<u16>)
    ensures
        r.offset == 0x2a,
        r.len == <u16 as PduData>::Packed::spec_len(),
        r.endian == Endianness::Little,
{
    Field::simple(0x2a)
}

/// EEPROM register: Receive Mailbox Offset for Bootstrap state (master to slave)
pub fn eeprom_mailbox_bootstrap_read_offset() -> (r: Field<u16>)
    ensures
        r.offset == 0x2c,
        r.len == <u16 as PduData>::Packed::spec_len(),
        r.endian == Endianness::Little,
{
    Field::simple(0x2c)
}

/// EEPROM register: Receive Mailbox Size for Bootstrap state (master to slave)
pub fn eeprom_mailbox_bootstrap_read_size() -> (r: Field<u16>)
    ensures
        r.offset == 0x2e,
        r.len == <u16 as PduData>::Packed::spec_len(),
        r.endian == Endianness::Little,
{
    Field::simple(0x2e)
}

/// EEPROM register: Receive Mailbox Offset for Standard state (master to slave)
pub fn eeprom_mailbox_standard_write_offset() -> (r: Field<u16>)
    ensures
        r.offset == 0x30,
        r.len == <u16 as PduData>::Packed::spec_len(),
        r.endian == Endianness::Little,
{
    Field::simple(0x30)
}

/// EEPROM register: Receive Mailbox Size for Standard state (master to slave)
pub fn eeprom_mailbox_standard_write_size() -> (r: Field<u16>)
    ensures
        r.offset == 0x32,
        r.len == <u16 as PduData>::Packed::spec_len(),
        r.endian == Endianness::Little,
{
    Field::simple(0x32)
}

/// EEPROM register: Send Mailbox Offset for Standard state (slave to master)
pub fn eeprom_mailbox_standard_read_offset() -> (r: Field<u16>)
    ensures
        r.offset == 0x34,
        r.len == <u16 as PduData>::Packed::spec_len(),
        r.endian == Endianness::Little,
{
    Field::simple(0x34)
}

/// EEPROM register: Send Mailbox Size for Standard state (slave to master)
pub fn eeprom_mailbox_standard_read_size() -> (r: Field<u16>)
    ensures
        r.offset == 0x36,
        r.len == <u16 as PduData>::Packed::spec_len(),
        r.endian == Endianness::Little,
{
    Field::simple(0x36)
}

/// EEPROM register: Mailbox Protocols Supported as defined in ETG.1000.6 Table 18
pub fn eeprom_mailbox_protocols() -> (r: Field<MailboxSupport>)
    ensures
        r.offset == 0x38,
        r.len == <MailboxSupport as PduData>::Packed::spec_len(),
        r.endian == Endianness::Little,
{
    Field::simple(0x38)
}

/// EEPROM register: size of EEPROM in KiBit + 1 (size = 0 means a EEPROM size of 1 KiBit)
pub fn eeprom_eeprom_size() -> (r: Field<u16>)
    ensures
        r.offset == 0x7c,
        r.len == <u16 as PduData>::Packed::spec_len(),
        r.endian == Endianness::Little,
{
    Field::simple(0x7c)
}

/// EEPROM register: version of the EEPROM layout, this version is 1
pub fn eeprom_version() -> (r: Field<u16>)
    ensures
        r.offset == 0x7e,
        r.len == <u16 as PduData>::Packed::spec_len(),
        r.endian == Endianness::Little,
{
    Field::simple(0x7e)
}

/**
    type of category in the SII

    ETG.1000.6 table 19
*/
#[derive(Copy, Clone, Debug, PartialEq, Eq, Structural)]
pub enum CategoryType {
    Nop,
    /// String repository for other Categories structure of this category data see ETG.1000.6 Table 20
    Strings,
    /// Data Types for future use
    DataTypes,
    /// General information structure of this category data see ETG.1000.6 Table 21
    General,
    /// FMMUs to be used structure of this category data see ETG.1000.6 Table 23
    Fmmu,
    /// Sync Manager Configuration structure of this category data see ETG.1000.6 Table 24
    SyncManager,
    /// TxPDO description structure of this category data see ETG.1000.6 Table 25
    PdoWrite,
    /// RxPDO description structure of this category data see ETG.1000.6 Table 25
    PdoRead,
    /// Distributed Clock for future use
    Dc,
    /// any other code
    Unsupported,
    /// mark the end of SII categories
    End,
}

/// code of a [CategoryType] on the wire
pub open spec fn category_type_code(v: CategoryType) -> u16 {
    match v {
        CategoryType::Nop => 0,
        CategoryType::Strings => 10,
        CategoryType::DataTypes => 20,
        CategoryType::General => 30,
        CategoryType::Fmmu => 40,
        CategoryType::SyncManager => 41,
        CategoryType::PdoWrite => 50,
        CategoryType::PdoRead => 51,
        CategoryType::Dc => 60,
        CategoryType::Unsupported => 0x0800,
        CategoryType::End => 0xffff,
    }
}

/// the [CategoryType] of a code on the wire, if any
pub open spec fn category_type_of_code(code: u16) -> Option<CategoryType> {
    match code {
        0 => Some(CategoryType::Nop),
        10 => Some(CategoryType::Strings),
        20 => Some(CategoryType::DataTypes),
        30 => Some(CategoryType::General),
        40 => Some(CategoryType::Fmmu),
        41 => Some(CategoryType::SyncManager),
        50 => Some(CategoryType::PdoWrite),
        51 => Some(CategoryType::PdoRead),
        60 => Some(CategoryType::Dc),
        0x0800 => Some(CategoryType::Unsupported),
        0xffff => Some(CategoryType::End),
        _ => None,
    }
}

impl CategoryType {
    /// code on the wire
    pub fn code(self) -> (r: u16)
        ensures
            r == category_type_code(self),
    {
        match self {
            CategoryType::Nop => 0,
            CategoryType::Strings => 10,
            CategoryType::DataTypes => 20,
            CategoryType::General => 30,
            CategoryType::Fmmu => 40,
            CategoryType::SyncManager => 41,
            CategoryType::PdoWrite => 50,
            CategoryType::PdoRead => 51,
            CategoryType::Dc => 60,
            CategoryType::Unsupported => 0x0800,
            CategoryType::End => 0xffff,
        }
    }

    /// the variant of a code on the wire, if any
    pub fn from_code(code: u16) -> (r: Option<Self>)
        ensures
            r == category_type_of_code(code),
    {
        match code {
            0 => Some(CategoryType::Nop),
            10 => Some(CategoryType::Strings),
            20 => Some(CategoryType::DataTypes),
            30 => Some(CategoryType::General),
            40 => Some(CategoryType::Fmmu),
            41 => Some(CategoryType::SyncManager),
            50 => Some(CategoryType::PdoWrite),
            51 => Some(CategoryType::PdoRead),
            60 => Some(CategoryType::Dc),
            0x0800 => Some(CategoryType::Unsupported),
            0xffff => Some(CategoryType::End),
            _ => None,
        }
    }
}

/// Decoding the code of a [CategoryType] gives back the same variant.
pub proof fn law_category_type_code_roundtrip(v: CategoryType)
    ensures
        category_type_of_code(category_type_code(v)) == Some(v),
{
}
/**
    header for a SII category

    ETG.1000.6 table 17
*/
#[derive(Copy, Clone, Debug, PartialEq, Eq, Structural)]
pub struct CategoryHeader {
    /// category type code as defined in ETG.1000.6 Table 19 (a [CategoryType] code)
    pub ty: u16,
    /// size in word of the category
    pub size: u16,
}

impl CategoryHeader {
    /// the bits of the struct read as an integer, each field truncated to its width
    pub open spec fn raw(&self) -> nat {
        (self.ty as nat % 0x10000)
            + (self.size as nat % 0x10000) * 0x10000
    }

    /// every field fits in its width
    pub open spec fn wf(&self) -> bool {
        true
    }

    /// the struct whose bits read as the integer `raw`
    pub open spec fn from_raw(raw: nat) -> Self {
        CategoryHeader {
            ty: (raw % 0x10000) as u16,
            size: (raw / 0x10000 % 0x10000) as u16,
        }
    }

    /// the bits of the struct read as an integer, each field truncated to its width
    pub fn to_bits(&self) -> (r: u64)
        ensures
            r == self.raw(),
    {
        (self.ty as u64 % 0x10000)
            + (self.size as u64 % 0x10000) * 0x10000
    }

    /// the struct whose bits read as the integer `raw`
    pub fn from_bits(raw: u64) -> (r: Self)
        requires
            raw < 0x100000000,
        ensures
            r == Self::from_raw(raw as nat),
            r.wf(),
    {
        CategoryHeader {
            ty: (raw % 0x10000) as u16,
            size: (raw / 0x10000 % 0x10000) as u16,
        }
    }
}

impl PduData for CategoryHeader {
    const ID: TypeId = TypeId::CUSTOM;
    type Packed = [u8; 4];

    open spec fn pack_defined(len: nat, bitoffset: u8, bitsize: usize, bitordering: Endianness) -> bool {
        true
    }

    open spec fn spec_pack_slice(
        &self,
        data: Seq<u8>,
        bitoffset: u8,
        bitsize: usize,
        bitordering: Endianness,
    ) -> PackingResult<Seq<u8>> {
        bits_pack_slice_result(self.raw(), 4, data, bitoffset, bitsize)
    }

    open spec fn unpack_defined(len: nat, bitoffset: u8, bitsize: usize, bitordering: Endianness) -> bool {
        true
    }

    open spec fn spec_unpack_slice(
        src: Seq<u8>,
        bitoffset: u8,
        bitsize: usize,
        bitordering: Endianness,
    ) -> PackingResult<Self> {
        match bits_unpack_slice_result(src, 4, bitoffset, bitsize) {
            Ok(v) => Ok(Self::from_raw(v)),
            Err(e) => Err(e),
        }
    }

    open spec fn pack_whole_defined(len: nat) -> bool {
        true
    }

    open spec fn spec_pack(&self, data: Seq<u8>) -> PackingResult<Seq<u8>> {
        bits_pack_result(self.raw(), 4, data)
    }

    open spec fn unpack_whole_defined(len: nat) -> bool {
        true
    }

    open spec fn spec_unpack(src: Seq<u8>) -> PackingResult<Self> {
        match bits_unpack_result(src, 4) {
            Ok(v) => Ok(Self::from_raw(v)),
            Err(e) => Err(e),
        }
    }

    fn pack(&self, data: &mut [u8]) -> (r: PackingResult<()>) {
        proof {
            lemma2_to64();
        }
        pack_bits(self.to_bits(), 4, data)
    }

    fn unpack(src: &[u8]) -> (r: PackingResult<Self>) {
        proof {
            lemma2_to64();
            lemma2_to64_rest();
        }
        match unpack_bits(src, 4) {
            Ok(v) => Ok(Self::from_bits(v)),
            Err(e) => Err(e),
        }
    }

    fn pack_slice(
        &self,
        data: &mut [u8],
        bitoffset: u8,
        bitsize: usize,
        bitordering: Endianness,
    ) -> (r: PackingResult<()>) {
        if bitoffset != 0 {
            return Err(PackingError::BadAlignment(bitoffset as usize, "Bit offset must be at 0 on this implementation"));
        }
        if bitsize != 0 {
            return Err(PackingError::BadSize(bitsize, "Bit size must be at 0 on this implementation"));
        }
        self.pack(data)
    }

    fn unpack_slice(src: &[u8], bitoffset: u8, bitsize: usize, bitordering: Endianness) -> (r: PackingResult<Self>) {
        if bitoffset != 0 {
            return Err(PackingError::BadAlignment(bitoffset as usize, "Bit offset must be at 0 on this implementation"));
        }
        if bitsize != 0 {
            return Err(PackingError::BadSize(bitsize, "Bit size must be at 0 on this implementation"));
        }
        Self::unpack(src)
    }
}

/// The bits of a [CategoryHeader] whose fields fit in their widths, read back as a struct, give the
/// same struct; and any integer of its width, turned into a struct and back, is unchanged.
pub proof fn law_category_header_bits_roundtrip(h: CategoryHeader, raw: nat)
    ensures
        h.wf() ==> CategoryHeader::from_raw(h.raw()) == h,
        raw < 0x100000000 ==> CategoryHeader::from_raw(raw).raw() == raw,
{
}

/// the category type of a code, unknown codes being [CategoryType::Unsupported]
pub open spec fn category_type(code: u16) -> CategoryType {
    match category_type_of_code(code) {
        Some(ty) => ty,
        None => CategoryType::Unsupported,
    }
}

impl CategoryHeader {
    /// category type of this header
    pub fn ty(&self) -> (r: CategoryType)
        ensures
            r == category_type(self.ty),
    {
        match CategoryType::from_code(self.ty) {
            Some(ty) => ty,
            None => CategoryType::Unsupported,
        }
    }
}

/// supported CoE features
#[derive(Copy, Clone, Debug, PartialEq, Eq, Structural)]
pub struct CoeDetails {
    /// bits 0 to 0
    pub sdo: bool,
    /// bits 1 to 1
    pub sdo_info: bool,
    /// bits 2 to 2
    pub pdo_assign: bool,
    /// bits 3 to 3
    pub pdo_config: bool,
    /// bits 4 to 4
    pub startup_upload: bool,
    /// bits 5 to 5
    pub sdo_complete: bool,
    /// bits 6 to 7
    pub reserved: u8,
}

impl CoeDetails {
    /// the bits of the struct read as an integer, each field truncated to its width
    pub open spec fn raw(&self) -> nat {
        (if self.sdo { 1nat } else { 0nat })
            + (if self.sdo_info { 1nat } else { 0nat }) * 0x2
            + (if self.pdo_assign { 1nat } else { 0nat }) * 0x4
            + (if self.pdo_config { 1nat } else { 0nat }) * 0x8
            + (if self.startup_upload { 1nat } else { 0nat }) * 0x10
            + (if self.sdo_complete { 1nat } else { 0nat }) * 0x20
            + (self.reserved as nat % 0x4) * 0x40
    }

    /// every field fits in its width
    pub open spec fn wf(&self) -> bool {
        self.reserved < 0x4
    }

    /// the struct whose bits read as the integer `raw`
    pub open spec fn from_raw(raw: nat) -> Self {
        CoeDetails {
            sdo: (raw % 0x2) == 1,
            sdo_info: (raw / 0x2 % 0x2) == 1,
            pdo_assign: (raw / 0x4 % 0x2) == 1,
            pdo_config: (raw / 0x8 % 0x2) == 1,
            startup_upload: (raw / 0x10 % 0x2) == 1,
            sdo_complete: (raw / 0x20 % 0x2) == 1,
            reserved: (raw / 0x40 % 0x4) as u8,
        }
    }

    /// the bits of the struct read as an integer, each field truncated to its width
    #[verifier::rlimit(60)]
    pub fn to_bits(&self) -> (r: u64)
        ensures
            r == self.raw(),
    {
        let mut r: u64 = (if self.sdo { 1u64 } else { 0u64 });
        assert(r < 0x2);
        r = r + (if self.sdo_info { 1u64 } else { 0u64 }) * 0x2;
        assert(r < 0x4);
        r = r + (if self.pdo_assign { 1u64 } else { 0u64 }) * 0x4;
        assert(r < 0x8);
        r = r + (if self.pdo_config { 1u64 } else { 0u64 }) * 0x8;
        assert(r < 0x10);
        r = r + (if self.startup_upload { 1u64 } else { 0u64 }) * 0x10;
        assert(r < 0x20);
        r = r + (if self.sdo_complete { 1u64 } else { 0u64 }) * 0x20;
        assert(r < 0x40);
        r = r + (self.reserved as u64 % 0x4) * 0x40;
        r
    }

    /// the struct whose bits read as the integer `raw`
    pub fn from_bits(raw: u64) -> (r: Self)
        requires
            raw < 0x100,
        ensures
            r == Self::from_raw(raw as nat),
            r.wf(),
    {
        CoeDetails {
            sdo: (raw % 0x2) == 1,
            sdo_info: (raw / 0x2 % 0x2) == 1,
            pdo_assign: (raw / 0x4 % 0x2) == 1,
            pdo_config: (raw / 0x8 % 0x2) == 1,
            startup_upload: (raw / 0x10 % 0x2) == 1,
            sdo_complete: (raw / 0x20 % 0x2) == 1,
            reserved: (raw / 0x40 % 0x4) as u8,
        }
    }
}

impl PduData for CoeDetails {
    const ID: TypeId = TypeId::CUSTOM;
    type Packed = [u8; 1];

    open spec fn pack_defined(len: nat, bitoffset: u8, bitsize: usize, bitordering: Endianness) -> bool {
        true
    }

    open spec fn spec_pack_slice(
        &self,
        data: Seq<u8>,
        bitoffset: u8,
        bitsize: usize,
        bitordering: Endianness,
    ) -> PackingResult<Seq<u8>> {
        bits_pack_slice_result(self.raw(), 1, data, bitoffset, bitsize)
    }

    open spec fn unpack_defined(len: nat, bitoffset: u8, bitsize: usize, bitordering: Endianness) -> bool {
        true
    }

    open spec fn spec_unpack_slice(
        src: Seq<u8>,
        bitoffset: u8,
        bitsize: usize,
        bitordering: Endianness,
    ) -> PackingResult<Self> {
        match bits_unpack_slice_result(src, 1, bitoffset, bitsize) {
            Ok(v) => Ok(Self::from_raw(v)),
            Err(e) => Err(e),
        }
    }

    open spec fn pack_whole_defined(len: nat) -> bool {
        true
    }

    open spec fn spec_pack(&self, data: Seq<u8>) -> PackingResult<Seq<u8>> {
        bits_pack_result(self.raw(), 1, data)
    }

    open spec fn unpack_whole_defined(len: nat) -> bool {
        true
    }

    open spec fn spec_unpack(src: Seq<u8>) -> PackingResult<Self> {
        match bits_unpack_result(src, 1) {
            Ok(v) => Ok(Self::from_raw(v)),
            Err(e) => Err(e),
        }
    }

    fn pack(&self, data: &mut [u8]) -> (r: PackingResult<()>) {
        proof {
            lemma2_to64();
        }
        pack_bits(self.to_bits(), 1, data)
    }

    fn unpack(src: &[u8]) -> (r: PackingResult<Self>) {
        proof {
            lemma2_to64();
            lemma2_to64_rest();
        }
        match unpack_bits(src, 1) {
            Ok(v) => Ok(Self::from_bits(v)),
            Err(e) => Err(e),
        }
    }

    fn pack_slice(
        &self,
        data: &mut [u8],
        bitoffset: u8,
        bitsize: usize,
        bitordering: Endianness,
    ) -> (r: PackingResult<()>) {
        if bitoffset != 0 {
            return Err(PackingError::BadAlignment(bitoffset as usize, "Bit offset must be at 0 on this implementation"));
        }
        if bitsize != 0 {
            return Err(PackingError::BadSize(bitsize, "Bit size must be at 0 on this implementation"));
        }
        self.pack(data)
    }

    fn unpack_slice(src: &[u8], bitoffset: u8, bitsize: usize, bitordering: Endianness) -> (r: PackingResult<Self>) {
        if bitoffset != 0 {
            return Err(PackingError::BadAlignment(bitoffset as usize, "Bit offset must be at 0 on this implementation"));
        }
        if bitsize != 0 {
            return Err(PackingError::BadSize(bitsize, "Bit size must be at 0 on this implementation"));
        }
        Self::unpack(src)
    }
}

/// The bits of a [CoeDetails] whose fields fit in their widths, read back as a struct, give the
/// same struct; and any integer of its width, turned into a struct and back, is unchanged.
#[verifier::rlimit(60)]
pub proof fn law_coe_details_bits_roundtrip(h: CoeDetails, raw: nat)
    ensures
        h.wf() ==> CoeDetails::from_raw(h.raw()) == h,
        raw < 0x100 ==> CoeDetails::from_raw(raw).raw() == raw,
{
    let x_sdo: u64 = (if h.sdo { 1u64 } else { 0u64 });
    let x_sdo_info: u64 = (if h.sdo_info { 1u64 } else { 0u64 });
    let x_pdo_assign: u64 = (if h.pdo_assign { 1u64 } else { 0u64 });
    let x_pdo_config: u64 = (if h.pdo_config { 1u64 } else { 0u64 });
    let x_startup_upload: u64 = (if h.startup_upload { 1u64 } else { 0u64 });
    let x_sdo_complete: u64 = (if h.sdo_complete { 1u64 } else { 0u64 });
    let x_reserved: u64 = (h.reserved as u64);
    let v: u64 = (x_sdo + x_sdo_info * 0x2 + x_pdo_assign * 0x4 + x_pdo_config * 0x8 + x_startup_upload * 0x10 + x_sdo_complete * 0x20 + x_reserved * 0x40) as u64;
    let r: u64 = raw as u64;
    assert({
        &&& !(v == x_sdo + x_sdo_info * 0x2 + x_pdo_assign * 0x4 + x_pdo_config * 0x8 + x_startup_upload * 0x10 + x_sdo_complete * 0x20 + x_reserved * 0x40 && x_sdo < 0x2 && x_sdo_info < 0x2 && x_pdo_assign < 0x2 && x_pdo_config < 0x2 && x_startup_upload < 0x2 && x_sdo_complete < 0x2 && x_reserved < 0x4) || (v % 0x2 == x_sdo && v / 0x2 % 0x2 == x_sdo_info && v / 0x4 % 0x2 == x_pdo_assign && v / 0x8 % 0x2 == x_pdo_config && v / 0x10 % 0x2 == x_startup_upload && v / 0x20 % 0x2 == x_sdo_complete && v / 0x40 % 0x4 == x_reserved)
        &&& !(r < 0x100) || ((r % 0x2) + (r / 0x2 % 0x2) * 0x2 + (r / 0x4 % 0x2) * 0x4 + (r / 0x8 % 0x2) * 0x8 + (r / 0x10 % 0x2) * 0x10 + (r / 0x20 % 0x2) * 0x20 + (r / 0x40 % 0x4) * 0x40 == r)
    }) by (bit_vector);
    if h.wf() {
        assert(h.raw() == x_sdo + x_sdo_info * 0x2 + x_pdo_assign * 0x4 + x_pdo_config * 0x8 + x_startup_upload * 0x10 + x_sdo_complete * 0x20 + x_reserved * 0x40);
    }
}
/// supported FoE features
#[derive(Copy, Clone, Debug, PartialEq, Eq, Structural)]
pub struct FoeDetails {
    /// protocol supported
    pub enable: bool,
    /// bits 1 to 7
    pub reserved: u8,
}

impl FoeDetails {
    /// the bits of the struct read as an integer, each field truncated to its width
    pub open spec fn raw(&self) -> nat {
        (if self.enable { 1nat } else { 0nat })
            + (self.reserved as nat % 0x80) * 0x2
    }

    /// every field fits in its width
    pub open spec fn wf(&self) -> bool {
        self.reserved < 0x80
    }

    /// the struct whose bits read as the integer `raw`
    pub open spec fn from_raw(raw: nat) -> Self {
        FoeDetails {
            enable: (raw % 0x2) == 1,
            reserved: (raw / 0x2 % 0x80) as u8,
        }
    }

    /// the bits of the struct read as an integer, each field truncated to its width
    pub fn to_bits(&self) -> (r: u64)
        ensures
            r == self.raw(),
    {
        (if self.enable { 1u64 } else { 0u64 })
            + (self.reserved as u64 % 0x80) * 0x2
    }

    /// the struct whose bits read as the integer `raw`
    pub fn from_bits(raw: u64) -> (r: Self)
        requires
            raw < 0x100,
        ensures
            r == Self::from_raw(raw as nat),
            r.wf(),
    {
        FoeDetails {
            enable: (raw % 0x2) == 1,
            reserved: (raw / 0x2 % 0x80) as u8,
        }
    }
}

impl PduData for FoeDetails {
    const ID: TypeId = TypeId::CUSTOM;
    type Packed = [u8; 1];

    open spec fn pack_defined(len: nat, bitoffset: u8, bitsize: usize, bitordering: Endianness) -> bool {
        true
    }

    open spec fn spec_pack_slice(
        &self,
        data: Seq<u8>,
        bitoffset: u8,
        bitsize: usize,
        bitordering: Endianness,
    ) -> PackingResult<Seq<u8>> {
        bits_pack_slice_result(self.raw(), 1, data, bitoffset, bitsize)
    }

    open spec fn unpack_defined(len: nat, bitoffset: u8, bitsize: usize, bitordering: Endianness) -> bool {
        true
    }

    open spec fn spec_unpack_slice(
        src: Seq<u8>,
        bitoffset: u8,
        bitsize: usize,
        bitordering: Endianness,
    ) -> PackingResult<Self> {
        match bits_unpack_slice_result(src, 1, bitoffset, bitsize) {
            Ok(v) => Ok(Self::from_raw(v)),
            Err(e) => Err(e),
        }
    }

    open spec fn pack_whole_defined(len: nat) -> bool {
        true
    }

    open spec fn spec_pack(&self, data: Seq<u8>) -> PackingResult<Seq<u8>> {
        bits_pack_result(self.raw(), 1, data)
    }

    open spec fn unpack_whole_defined(len: nat) -> bool {
        true
    }

    open spec fn spec_unpack(src: Seq<u8>) -> PackingResult<Self> {
        match bits_unpack_result(src, 1) {
            Ok(v) => Ok(Self::from_raw(v)),
            Err(e) => Err(e),
        }
    }

    fn pack(&self, data: &mut [u8]) -> (r: PackingResult<()>) {
        proof {
            lemma2_to64();
        }
        pack_bits(self.to_bits(), 1, data)
    }

    fn unpack(src: &[u8]) -> (r: PackingResult<Self>) {
        proof {
            lemma2_to64();
            lemma2_to64_rest();
        }
        match unpack_bits(src, 1) {
            Ok(v) => Ok(Self::from_bits(v)),
            Err(e) => Err(e),
        }
    }

    fn pack_slice(
        &self,
        data: &mut [u8],
        bitoffset: u8,
        bitsize: usize,
        bitordering: Endianness,
    ) -> (r: PackingResult<()>) {
        if bitoffset != 0 {
            return Err(PackingError::BadAlignment(bitoffset as usize, "Bit offset must be at 0 on this implementation"));
        }
        if bitsize != 0 {
            return Err(PackingError::BadSize(bitsize, "Bit size must be at 0 on this implementation"));
        }
        self.pack(data)
    }

    fn unpack_slice(src: &[u8], bitoffset: u8, bitsize: usize, bitordering: Endianness) -> (r: PackingResult<Self>) {
        if bitoffset != 0 {
            return Err(PackingError::BadAlignment(bitoffset as usize, "Bit offset must be at 0 on this implementation"));
        }
        if bitsize != 0 {
            return Err(PackingError::BadSize(bitsize, "Bit size must be at 0 on this implementation"));
        }
        Self::unpack(src)
    }
}

/// The bits of a [FoeDetails] whose fields fit in their widths, read back as a struct, give the
/// same struct; and any integer of its width, turned into a struct and back, is unchanged.
pub proof fn law_foe_details_bits_roundtrip(h: FoeDetails, raw: nat)
    ensures
        h.wf() ==> FoeDetails::from_raw(h.raw()) == h,
        raw < 0x100 ==> FoeDetails::from_raw(raw).raw() == raw,
{
}
/// supported EoE features
#[derive(Copy, Clone, Debug, PartialEq, Eq, Structural)]
pub struct EoeDetails {
    /// protocol supported
    pub enable: bool,
    /// bits 1 to 7
    pub reserved: u8,
}

impl EoeDetails {
    /// the bits of the struct read as an integer, each field truncated to its width
    pub open spec fn raw(&self) -> nat {
        (if self.enable { 1nat } else { 0nat })
            + (self.reserved as nat % 0x80) * 0x2
    }

    /// every field fits in its width
    pub open spec fn wf(&self) -> bool {
        self.reserved < 0x80
    }

    /// the struct whose bits read as the integer `raw`
    pub open spec fn from_raw(raw: nat) -> Self {
        EoeDetails {
            enable: (raw % 0x2) == 1,
            reserved: (raw / 0x2 % 0x80) as u8,
        }
    }

    /// the bits of the struct read as an integer, each field truncated to its width
    pub fn to_bits(&self) -> (r: u64)
        ensures
            r == self.raw(),
    {
        (if self.enable { 1u64 } else { 0u64 })
            + (self.reserved as u64 % 0x80) * 0x2
    }

    /// the struct whose bits read as the integer `raw`
    pub fn from_bits(raw: u64) -> (r: Self)
        requires
            raw < 0x100,
        ensures
            r == Self::from_raw(raw as nat),
            r.wf(),
    {
        EoeDetails {
            enable: (raw % 0x2) == 1,
            reserved: (raw / 0x2 % 0x80) as u8,
        }
    }
}

impl PduData for EoeDetails {
    const ID: TypeId = TypeId::CUSTOM;
    type Packed = [u8; 1];

    open spec fn pack_defined(len: nat, bitoffset: u8, bitsize: usize, bitordering: Endianness) -> bool {
        true
    }

    open spec fn spec_pack_slice(
        &self,
        data: Seq<u8>,
        bitoffset: u8,
        bitsize: usize,
        bitordering: Endianness,
    ) -> PackingResult<Seq<u8>> {
        bits_pack_slice_result(self.raw(), 1, data, bitoffset, bitsize)
    }

    open spec fn unpack_defined(len: nat, bitoffset: u8, bitsize: usize, bitordering: Endianness) -> bool {
        true
    }

    open spec fn spec_unpack_slice(
        src: Seq<u8>,
        bitoffset: u8,
        bitsize: usize,
        bitordering: Endianness,
    ) -> PackingResult<Self> {
        match bits_unpack_slice_result(src, 1, bitoffset, bitsize) {
            Ok(v) => Ok(Self::from_raw(v)),
            Err(e) => Err(e),
        }
    }

    open spec fn pack_whole_defined(len: nat) -> bool {
        true
    }

    open spec fn spec_pack(&self, data: Seq<u8>) -> PackingResult<Seq<u8>> {
        bits_pack_result(self.raw(), 1, data)
    }

    open spec fn unpack_whole_defined(len: nat) -> bool {
        true
    }

    open spec fn spec_unpack(src: Seq<u8>) -> PackingResult<Self> {
        match bits_unpack_result(src, 1) {
            Ok(v) => Ok(Self::from_raw(v)),
            Err(e) => Err(e),
        }
    }

    fn pack(&self, data: &mut [u8]) -> (r: PackingResult<()>) {
        proof {
            lemma2_to64();
        }
        pack_bits(self.to_bits(), 1, data)
    }

    fn unpack(src: &[u8]) -> (r: PackingResult<Self>) {
        proof {
            lemma2_to64();
            lemma2_to64_rest();
        }
        match unpack_bits(src, 1) {
            Ok(v) => Ok(Self::from_bits(v)),
            Err(e) => Err(e),
        }
    }

    fn pack_slice(
        &self,
        data: &mut [u8],
        bitoffset: u8,
        bitsize: usize,
        bitordering: Endianness,
    ) -> (r: PackingResult<()>) {
        if bitoffset != 0 {
            return Err(PackingError::BadAlignment(bitoffset as usize, "Bit offset must be at 0 on this implementation"));
        }
        if bitsize != 0 {
            return Err(PackingError::BadSize(bitsize, "Bit size must be at 0 on this implementation"));
        }
        self.pack(data)
    }

    fn unpack_slice(src: &[u8], bitoffset: u8, bitsize: usize, bitordering: Endianness) -> (r: PackingResult<Self>) {
        if bitoffset != 0 {
            return Err(PackingError::BadAlignment(bitoffset as usize, "Bit offset must be at 0 on this implementation"));
        }
        if bitsize != 0 {
            return Err(PackingError::BadSize(bitsize, "Bit size must be at 0 on this implementation"));
        }
        Self::unpack(src)
    }
}

/// The bits of a [EoeDetails] whose fields fit in their widths, read back as a struct, give the
/// same struct; and any integer of its width, turned into a struct and back, is unchanged.
pub proof fn law_eoe_details_bits_roundtrip(h: EoeDetails, raw: nat)
    ensures
        h.wf() ==> EoeDetails::from_raw(h.raw()) == h,
        raw < 0x100 ==> EoeDetails::from_raw(raw).raw() == raw,
{
}
/// general flags of a slave
#[derive(Copy, Clone, Debug, PartialEq, Eq, Structural)]
pub struct GeneralFlags {
    /// bits 0 to 0
    pub enable_safeop: bool,
    /// bits 1 to 1
    pub enable_notlrw: bool,
    /// bits 2 to 2
    pub mbox_dll: bool,
    /// ID selector mirrored in AL Statud Code
    pub ident_alsts: bool,
    /// ID selector value mirrored in specific physical memory as deonted by the parameter Physical Memory Address
    pub ident_phym: bool,
    /// bits 5 to 7
    pub reserved: u8,
}

impl GeneralFlags {
    /// the bits of the struct read as an integer, each field truncated to its width
    pub open spec fn raw(&self) -> nat {
        (if self.enable_safeop { 1nat } else { 0nat })
            + (if self.enable_notlrw { 1nat } else { 0nat }) * 0x2
            + (if self.mbox_dll { 1nat } else { 0nat }) * 0x4
            + (if self.ident_alsts { 1nat } else { 0nat }) * 0x8
            + (if self.ident_phym { 1nat } else { 0nat }) * 0x10
            + (self.reserved as nat % 0x8) * 0x20
    }

    /// every field fits in its width
    pub open spec fn wf(&self) -> bool {
        self.reserved < 0x8
    }

    /// the struct whose bits read as the integer `raw`
    pub open spec fn from_raw(raw: nat) -> Self {
        GeneralFlags {
            enable_safeop: (raw % 0x2) == 1,
            enable_notlrw: (raw / 0x2 % 0x2) == 1,
            mbox_dll: (raw / 0x4 % 0x2) == 1,
            ident_alsts: (raw / 0x8 % 0x2) == 1,
            ident_phym: (raw / 0x10 % 0x2) == 1,
            reserved: (raw / 0x20 % 0x8) as u8,
        }
    }

    /// the bits of the struct read as an integer, each field truncated to its width
    #[verifier::rlimit(60)]
    pub fn to_bits(&self) -> (r: u64)
        ensures
            r == self.raw(),
    {
        let mut r: u64 = (if self.enable_safeop { 1u64 } else { 0u64 });
        assert(r < 0x2);
        r = r + (if self.enable_notlrw { 1u64 } else { 0u64 }) * 0x2;
        assert(r < 0x4);
        r = r + (if self.mbox_dll { 1u64 } else { 0u64 }) * 0x4;
        assert(r < 0x8);
        r = r + (if self.ident_alsts { 1u64 } else { 0u64 }) * 0x8;
        assert(r < 0x10);
        r = r + (if self.ident_phym { 1u64 } else { 0u64 }) * 0x10;
        assert(r < 0x20);
        r = r + (self.reserved as u64 % 0x8) * 0x20;
        r
    }

    /// the struct whose bits read as the integer `raw`
    pub fn from_bits(raw: u64) -> (r: Self)
        requires
            raw < 0x100,
        ensures
            r == Self::from_raw(raw as nat),
            r.wf(),
    {
        GeneralFlags {
            enable_safeop: (raw % 0x2) == 1,
            enable_notlrw: (raw / 0x2 % 0x2) == 1,
            mbox_dll: (raw / 0x4 % 0x2) == 1,
            ident_alsts: (raw / 0x8 % 0x2) == 1,
            ident_phym: (raw / 0x10 % 0x2) == 1,
            reserved: (raw / 0x20 % 0x8) as u8,
        }
    }
}

impl PduData for GeneralFlags {
    const ID: TypeId = TypeId::CUSTOM;
    type Packed = [u8; 1];

    open spec fn pack_defined(len: nat, bitoffset: u8, bitsize: usize, bitordering: Endianness) -> bool {
        true
    }

    open spec fn spec_pack_slice(
        &self,
        data: Seq<u8>,
        bitoffset: u8,
        bitsize: usize,
        bitordering: Endianness,
    ) -> PackingResult<Seq<u8>> {
        bits_pack_slice_result(self.raw(), 1, data, bitoffset, bitsize)
    }

    open spec fn unpack_defined(len: nat, bitoffset: u8, bitsize: usize, bitordering: Endianness) -> bool {
        true
    }

    open spec fn spec_unpack_slice(
        src: Seq<u8>,
        bitoffset: u8,
        bitsize: usize,
        bitordering: Endianness,
    ) -> PackingResult<Self> {
        match bits_unpack_slice_result(src, 1, bitoffset, bitsize) {
            Ok(v) => Ok(Self::from_raw(v)),
            Err(e) => Err(e),
        }
    }

    open spec fn pack_whole_defined(len: nat) -> bool {
        true
    }

    open spec fn spec_pack(&self, data: Seq<u8>) -> PackingResult<Seq<u8>> {
        bits_pack_result(self.raw(), 1, data)
    }

    open spec fn unpack_whole_defined(len: nat) -> bool {
        true
    }

    open spec fn spec_unpack(src: Seq<u8>) -> PackingResult<Self> {
        match bits_unpack_result(src, 1) {
            Ok(v) => Ok(Self::from_raw(v)),
            Err(e) => Err(e),
        }
    }

    fn pack(&self, data: &mut [u8]) -> (r: PackingResult<()>) {
        proof {
            lemma2_to64();
        }
        pack_bits(self.to_bits(), 1, data)
    }

    fn unpack(src: &[u8]) -> (r: PackingResult<Self>) {
        proof {
            lemma2_to64();
            lemma2_to64_rest();
        }
        match unpack_bits(src, 1) {
            Ok(v) => Ok(Self::from_bits(v)),
            Err(e) => Err(e),
        }
    }

    fn pack_slice(
        &self,
        data: &mut [u8],
        bitoffset: u8,
        bitsize: usize,
        bitordering: Endianness,
    ) -> (r: PackingResult<()>) {
        if bitoffset != 0 {
            return Err(PackingError::BadAlignment(bitoffset as usize, "Bit offset must be at 0 on this implementation"));
        }
        if bitsize != 0 {
            return Err(PackingError::BadSize(bitsize, "Bit size must be at 0 on this implementation"));
        }
        self.pack(data)
    }

    fn unpack_slice(src: &[u8], bitoffset: u8, bitsize: usize, bitordering: Endianness) -> (r: PackingResult<Self>) {
        if bitoffset != 0 {
            return Err(PackingError::BadAlignment(bitoffset as usize, "Bit offset must be at 0 on this implementation"));
        }
        if bitsize != 0 {
            return Err(PackingError::BadSize(bitsize, "Bit size must be at 0 on this implementation"));
        }
        Self::unpack(src)
    }
}

/// The bits of a [GeneralFlags] whose fields fit in their widths, read back as a struct, give the
/// same struct; and any integer of its width, turned into a struct and back, is unchanged.
#[verifier::rlimit(60)]
pub proof fn law_general_flags_bits_roundtrip(h: GeneralFlags, raw: nat)
    ensures
        h.wf() ==> GeneralFlags::from_raw(h.raw()) == h,
        raw < 0x100 ==> GeneralFlags::from_raw(raw).raw() == raw,
{
    let x_enable_safeop: u64 = (if h.enable_safeop { 1u64 } else { 0u64 });
    let x_enable_notlrw: u64 = (if h.enable_notlrw { 1u64 } else { 0u64 });
    let x_mbox_dll: u64 = (if h.mbox_dll { 1u64 } else { 0u64 });
    let x_ident_alsts: u64 = (if h.ident_alsts { 1u64 } else { 0u64 });
    let x_ident_phym: u64 = (if h.ident_phym { 1u64 } else { 0u64 });
    let x_reserved: u64 = (h.reserved as u64);
    let v: u64 = (x_enable_safeop + x_enable_notlrw * 0x2 + x_mbox_dll * 0x4 + x_ident_alsts * 0x8 + x_ident_phym * 0x10 + x_reserved * 0x20) as u64;
    let r: u64 = raw as u64;
    assert({
        &&& !(v == x_enable_safeop + x_enable_notlrw * 0x2 + x_mbox_dll * 0x4 + x_ident_alsts * 0x8 + x_ident_phym * 0x10 + x_reserved * 0x20 && x_enable_safeop < 0x2 && x_enable_notlrw < 0x2 && x_mbox_dll < 0x2 && x_ident_alsts < 0x2 && x_ident_phym < 0x2 && x_reserved < 0x8) || (v % 0x2 == x_enable_safeop && v / 0x2 % 0x2 == x_enable_notlrw && v / 0x4 % 0x2 == x_mbox_dll && v / 0x8 % 0x2 == x_ident_alsts && v / 0x10 % 0x2 == x_ident_phym && v / 0x20 % 0x8 == x_reserved)
        &&& !(r < 0x100) || ((r % 0x2) + (r / 0x2 % 0x2) * 0x2 + (r / 0x4 % 0x2) * 0x4 + (r / 0x8 % 0x2) * 0x8 + (r / 0x10 % 0x2) * 0x10 + (r / 0x20 % 0x8) * 0x20 == r)
    }) by (bit_vector);
    if h.wf() {
        assert(h.raw() == x_enable_safeop + x_enable_notlrw * 0x2 + x_mbox_dll * 0x4 + x_ident_alsts * 0x8 + x_ident_phym * 0x10 + x_reserved * 0x20);
    }
}
/// kind of a physical port of a slave
#[derive(Copy, Clone, Debug, PartialEq, Eq, Structural)]
pub enum PhysicalPort {
    /// port not used, also any unknown code
    Disabled,
    /// media independent interface
    Mii,
    Reserved,
    Ebus,
    /// Fast Hot Connect means a Port with Ethernet Physical Layer and Autonegotiation off (100Mbps fullduplex)
    FastHotconnect,
}

/// code of a [PhysicalPort] on the wire
pub open spec fn physical_port_code(v: PhysicalPort) -> u8 {
    match v {
        PhysicalPort::Disabled => 0x0,
        PhysicalPort::Mii => 0x1,
        PhysicalPort::Reserved => 0x2,
        PhysicalPort::Ebus => 0x3,
        PhysicalPort::FastHotconnect => 0x4,
    }
}

/// the [PhysicalPort] of a code on the wire, if any
pub open spec fn physical_port_of_code(code: u8) -> Option<PhysicalPort> {
    match code {
        0x0 => Some(PhysicalPort::Disabled),
        0x1 => Some(PhysicalPort::Mii),
        0x2 => Some(PhysicalPort::Reserved),
        0x3 => Some(PhysicalPort::Ebus),
        0x4 => Some(PhysicalPort::FastHotconnect),
        _ => None,
    }
}

impl PhysicalPort {
    /// code on the wire
    pub fn code(self) -> (r: u8)
        ensures
            r == physical_port_code(self),
    {
        match self {
            PhysicalPort::Disabled => 0x0,
            PhysicalPort::Mii => 0x1,
            PhysicalPort::Reserved => 0x2,
            PhysicalPort::Ebus => 0x3,
            PhysicalPort::FastHotconnect => 0x4,
        }
    }

    /// the variant of a code on the wire, if any
    pub fn from_code(code: u8) -> (r: Option<Self>)
        ensures
            r == physical_port_of_code(code),
    {
        match code {
            0x0 => Some(PhysicalPort::Disabled),
            0x1 => Some(PhysicalPort::Mii),
            0x2 => Some(PhysicalPort::Reserved),
            0x3 => Some(PhysicalPort::Ebus),
            0x4 => Some(PhysicalPort::FastHotconnect),
            _ => None,
        }
    }
}

/// Decoding the code of a [PhysicalPort] gives back the same variant.
pub proof fn law_physical_port_code_roundtrip(v: PhysicalPort)
    ensures
        physical_port_of_code(physical_port_code(v)) == Some(v),
{
}
/// Description of the physical ports, a [PhysicalPort] code each
#[derive(Copy, Clone, Debug, PartialEq, Eq, Structural)]
pub struct PhysicialPorts {
    /// bits 0 to 3
    pub port0: u8,
    /// bits 4 to 7
    pub port1: u8,
    /// bits 8 to 11
    pub port2: u8,
    /// bits 12 to 15
    pub port3: u8,
}

impl PhysicialPorts {
    /// the bits of the struct read as an integer, each field truncated to its width
    pub open spec fn raw(&self) -> nat {
        (self.port0 as nat % 0x10)
            + (self.port1 as nat % 0x10) * 0x10
            + (self.port2 as nat % 0x10) * 0x100
            + (self.port3 as nat % 0x10) * 0x1000
    }

    /// every field fits in its width
    pub open spec fn wf(&self) -> bool {
        self.port0 < 0x10
        && self.port1 < 0x10
        && self.port2 < 0x10
        && self.port3 < 0x10
    }

    /// the struct whose bits read as the integer `raw`
    pub open spec fn from_raw(raw: nat) -> Self {
        PhysicialPorts {
            port0: (raw % 0x10) as u8,
            port1: (raw / 0x10 % 0x10) as u8,
            port2: (raw / 0x100 % 0x10) as u8,
            port3: (raw / 0x1000 % 0x10) as u8,
        }
    }

    /// the bits of the struct read as an integer, each field truncated to its width
    pub fn to_bits(&self) -> (r: u64)
        ensures
            r == self.raw(),
    {
        (self.port0 as u64 % 0x10)
            + (self.port1 as u64 % 0x10) * 0x10
            + (self.port2 as u64 % 0x10) * 0x100
            + (self.port3 as u64 % 0x10) * 0x1000
    }

    /// the struct whose bits read as the integer `raw`
    pub fn from_bits(raw: u64) -> (r: Self)
        requires
            raw < 0x10000,
        ensures
            r == Self::from_raw(raw as nat),
            r.wf(),
    {
        PhysicialPorts {
            port0: (raw % 0x10) as u8,
            port1: (raw / 0x10 % 0x10) as u8,
            port2: (raw / 0x100 % 0x10) as u8,
            port3: (raw / 0x1000 % 0x10) as u8,
        }
    }
}

impl PduData for PhysicialPorts {
    const ID: TypeId = TypeId::CUSTOM;
    type Packed = [u8; 2];

    open spec fn pack_defined(len: nat, bitoffset: u8, bitsize: usize, bitordering: Endianness) -> bool {
        true
    }

    open spec fn spec_pack_slice(
        &self,
        data: Seq<u8>,
        bitoffset: u8,
        bitsize: usize,
        bitordering: Endianness,
    ) -> PackingResult<Seq<u8>> {
        bits_pack_slice_result(self.raw(), 2, data, bitoffset, bitsize)
    }

    open spec fn unpack_defined(len: nat, bitoffset: u8, bitsize: usize, bitordering: Endianness) -> bool {
        true
    }

    open spec fn spec_unpack_slice(
        src: Seq<u8>,
        bitoffset: u8,
        bitsize: usize,
        bitordering: Endianness,
    ) -> PackingResult<Self> {
        match bits_unpack_slice_result(src, 2, bitoffset, bitsize) {
            Ok(v) => Ok(Self::from_raw(v)),
            Err(e) => Err(e),
        }
    }

    open spec fn pack_whole_defined(len: nat) -> bool {
        true
    }

    open spec fn spec_pack(&self, data: Seq<u8>) -> PackingResult<Seq<u8>> {
        bits_pack_result(self.raw(), 2, data)
    }

    open spec fn unpack_whole_defined(len: nat) -> bool {
        true
    }

    open spec fn spec_unpack(src: Seq<u8>) -> PackingResult<Self> {
        match bits_unpack_result(src, 2) {
            Ok(v) => Ok(Self::from_raw(v)),
            Err(e) => Err(e),
        }
    }

    fn pack(&self, data: &mut [u8]) -> (r: PackingResult<()>) {
        proof {
            lemma2_to64();
        }
        pack_bits(self.to_bits(), 2, data)
    }

    fn unpack(src: &[u8]) -> (r: PackingResult<Self>) {
        proof {
            lemma2_to64();
            lemma2_to64_rest();
        }
        match unpack_bits(src, 2) {
            Ok(v) => Ok(Self::from_bits(v)),
            Err(e) => Err(e),
        }
    }

    fn pack_slice(
        &self,
        data: &mut [u8],
        bitoffset: u8,
        bitsize: usize,
        bitordering: Endianness,
    ) -> (r: PackingResult<()>) {
        if bitoffset != 0 {
            return Err(PackingError::BadAlignment(bitoffset as usize, "Bit offset must be at 0 on this implementation"));
        }
        if bitsize != 0 {
            return Err(PackingError::BadSize(bitsize, "Bit size must be at 0 on this implementation"));
        }
        self.pack(data)
    }

    fn unpack_slice(src: &[u8], bitoffset: u8, bitsize: usize, bitordering: Endianness) -> (r: PackingResult<Self>) {
        if bitoffset != 0 {
            return Err(PackingError::BadAlignment(bitoffset as usize, "Bit offset must be at 0 on this implementation"));
        }
        if bitsize != 0 {
            return Err(PackingError::BadSize(bitsize, "Bit size must be at 0 on this implementation"));
        }
        Self::unpack(src)
    }
}

/// The bits of a [PhysicialPorts] whose fields fit in their widths, read back as a struct, give the
/// same struct; and any integer of its width, turned into a struct and back, is unchanged.
pub proof fn law_physicial_ports_bits_roundtrip(h: PhysicialPorts, raw: nat)
    ensures
        h.wf() ==> PhysicialPorts::from_raw(h.raw()) == h,
        raw < 0x10000 ==> PhysicialPorts::from_raw(raw).raw() == raw,
{
    let x_port0: u64 = (h.port0 as u64);
    let x_port1: u64 = (h.port1 as u64);
    let x_port2: u64 = (h.port2 as u64);
    let x_port3: u64 = (h.port3 as u64);
    let v: u64 = (x_port0 + x_port1 * 0x10 + x_port2 * 0x100 + x_port3 * 0x1000) as u64;
    let r: u64 = raw as u64;
    assert({
        &&& !(v == x_port0 + x_port1 * 0x10 + x_port2 * 0x100 + x_port3 * 0x1000 && x_port0 < 0x10 && x_port1 < 0x10 && x_port2 < 0x10 && x_port3 < 0x10) || (v % 0x10 == x_port0 && v / 0x10 % 0x10 == x_port1 && v / 0x100 % 0x10 == x_port2 && v / 0x1000 % 0x10 == x_port3)
        &&& !(r < 0x10000) || ((r % 0x10) + (r / 0x10 % 0x10) * 0x10 + (r / 0x100 % 0x10) * 0x100 + (r / 0x1000 % 0x10) * 0x1000 == r)
    }) by (bit_vector);
    if h.wf() {
        assert(h.raw() == x_port0 + x_port1 * 0x10 + x_port2 * 0x100 + x_port3 * 0x1000);
    }
}

/// the physical port of a code, unknown codes being [PhysicalPort::Disabled]
pub open spec fn physical_port(code: u8) -> PhysicalPort {
    match physical_port_of_code(code) {
        Some(port) => port,
        None => PhysicalPort::Disabled,
    }
}

impl PhysicialPorts {
    /// description of the port of the given index
    pub fn port(&self, index: usize) -> (r: PhysicalPort)
        requires
            index < 4,
        ensures
            r == physical_port(
                if index == 0 { self.port0 } else if index == 1 { self.port1 } else if index == 2 { self.port2 } else { self.port3 },
            ),
    {
        let code = if index == 0 { self.port0 } else if index == 1 { self.port1 } else if index == 2 { self.port2 } else { self.port3 };
        match PhysicalPort::from_code(code) {
            Some(port) => port,
            None => PhysicalPort::Disabled,
        }
    }
}

/// ETG.1000.6 table 23
#[derive(Copy, Clone, Debug, PartialEq, Eq, Structural)]
pub enum FmmuUsage {
    Disabled,
    Outputs,
    Inputs,
    SyncManagerStatus,
}

/// code of a [FmmuUsage] on the wire
pub open spec fn fmmu_usage_code(v: FmmuUsage) -> u8 {
    match v {
        FmmuUsage::Disabled => 0,
        FmmuUsage::Outputs => 1,
        FmmuUsage::Inputs => 2,
        FmmuUsage::SyncManagerStatus => 3,
    }
}

/// the [FmmuUsage] of a code on the wire, if any
pub open spec fn fmmu_usage_of_code(code: u8) -> Option<FmmuUsage> {
    match code {
        0 => Some(FmmuUsage::Disabled),
        1 => Some(FmmuUsage::Outputs),
        2 => Some(FmmuUsage::Inputs),
        3 => Some(FmmuUsage::SyncManagerStatus),
        _ => None,
    }
}

impl FmmuUsage {
    /// code on the wire
    pub fn code(self) -> (r: u8)
        ensures
            r == fmmu_usage_code(self),
    {
        match self {
            FmmuUsage::Disabled => 0,
            FmmuUsage::Outputs => 1,
            FmmuUsage::Inputs => 2,
            FmmuUsage::SyncManagerStatus => 3,
        }
    }

    /// the variant of a code on the wire, if any
    pub fn from_code(code: u8) -> (r: Option<Self>)
        ensures
            r == fmmu_usage_of_code(code),
    {
        match code {
            0 => Some(FmmuUsage::Disabled),
            1 => Some(FmmuUsage::Outputs),
            2 => Some(FmmuUsage::Inputs),
            3 => Some(FmmuUsage::SyncManagerStatus),
            _ => None,
        }
    }
}

/// Decoding the code of a [FmmuUsage] gives back the same variant.
pub proof fn law_fmmu_usage_code_roundtrip(v: FmmuUsage)
    ensures
        fmmu_usage_of_code(fmmu_usage_code(v)) == Some(v),
{
}
/// enable flags of a sync manager described in the EEPROM
#[derive(Copy, Clone, Debug, PartialEq, Eq, Structural)]
pub struct SyncManagerEnable {
    /// bits 0 to 0
    pub enable: bool,
    /// fixed content (info for config tool, SyncMan has fixed content)
    pub fixed_content: bool,
    /// virtual SyncManager (no hardware resource used)
    pub virtual_sync_manager: bool,
    /// SyncMan should be enabled only in OP state
    pub oponly: bool,
    /// bits 4 to 7
    pub reserved: u8,
}

impl SyncManagerEnable {
    /// the bits of the struct read as an integer, each field truncated to its width
    pub open spec fn raw(&self) -> nat {
        (if self.enable { 1nat } else { 0nat })
            + (if self.fixed_content { 1nat } else { 0nat }) * 0x2
            + (if self.virtual_sync_manager { 1nat } else { 0nat }) * 0x4
            + (if self.oponly { 1nat } else { 0nat }) * 0x8
            + (self.reserved as nat % 0x10) * 0x10
    }

    /// every field fits in its width
    pub open spec fn wf(&self) -> bool {
        self.reserved < 0x10
    }

    /// the struct whose bits read as the integer `raw`
    pub open spec fn from_raw(raw: nat) -> Self {
        SyncManagerEnable {
            enable: (raw % 0x2) == 1,
            fixed_content: (raw / 0x2 % 0x2) == 1,
            virtual_sync_manager: (raw / 0x4 % 0x2) == 1,
            oponly: (raw / 0x8 % 0x2) == 1,
            reserved: (raw / 0x10 % 0x10) as u8,
        }
    }

    /// the bits of the struct read as an integer, each field truncated to its width
    pub fn to_bits(&self) -> (r: u64)
        ensures
            r == self.raw(),
    {
        let mut r: u64 = (if self.enable { 1u64 } else { 0u64 });
        assert(r < 0x2);
        r = r + (if self.fixed_content { 1u64 } else { 0u64 }) * 0x2;
        assert(r < 0x4);
        r = r + (if self.virtual_sync_manager { 1u64 } else { 0u64 }) * 0x4;
        assert(r < 0x8);
        r = r + (if self.oponly { 1u64 } else { 0u64 }) * 0x8;
        assert(r < 0x10);
        r = r + (self.reserved as u64 % 0x10) * 0x10;
        r
    }

    /// the struct whose bits read as the integer `raw`
    pub fn from_bits(raw: u64) -> (r: Self)
        requires
            raw < 0x100,
        ensures
            r == Self::from_raw(raw as nat),
            r.wf(),
    {
        SyncManagerEnable {
            enable: (raw % 0x2) == 1,
            fixed_content: (raw / 0x2 % 0x2) == 1,
            virtual_sync_manager: (raw / 0x4 % 0x2) == 1,
            oponly: (raw / 0x8 % 0x2) == 1,
            reserved: (raw / 0x10 % 0x10) as u8,
        }
    }
}

impl PduData for SyncManagerEnable {
    const ID: TypeId = TypeId::CUSTOM;
    type Packed = [u8; 1];

    open spec fn pack_defined(len: nat, bitoffset: u8, bitsize: usize, bitordering: Endianness) -> bool {
        true
    }

    open spec fn spec_pack_slice(
        &self,
        data: Seq<u8>,
        bitoffset: u8,
        bitsize: usize,
        bitordering: Endianness,
    ) -> PackingResult<Seq<u8>> {
        bits_pack_slice_result(self.raw(), 1, data, bitoffset, bitsize)
    }

    open spec fn unpack_defined(len: nat, bitoffset: u8, bitsize: usize, bitordering: Endianness) -> bool {
        true
    }

    open spec fn spec_unpack_slice(
        src: Seq<u8>,
        bitoffset: u8,
        bitsize: usize,
        bitordering: Endianness,
    ) -> PackingResult<Self> {
        match bits_unpack_slice_result(src, 1, bitoffset, bitsize) {
            Ok(v) => Ok(Self::from_raw(v)),
            Err(e) => Err(e),
        }
    }

    open spec fn pack_whole_defined(len: nat) -> bool {
        true
    }

    open spec fn spec_pack(&self, data: Seq<u8>) -> PackingResult<Seq<u8>> {
        bits_pack_result(self.raw(), 1, data)
    }

    open spec fn unpack_whole_defined(len: nat) -> bool {
        true
    }

    open spec fn spec_unpack(src: Seq<u8>) -> PackingResult<Self> {
        match bits_unpack_result(src, 1) {
            Ok(v) => Ok(Self::from_raw(v)),
            Err(e) => Err(e),
        }
    }

    fn pack(&self, data: &mut [u8]) -> (r: PackingResult<()>) {
        proof {
            lemma2_to64();
        }
        pack_bits(self.to_bits(), 1, data)
    }

    fn unpack(src: &[u8]) -> (r: PackingResult<Self>) {
        proof {
            lemma2_to64();
            lemma2_to64_rest();
        }
        match unpack_bits(src, 1) {
            Ok(v) => Ok(Self::from_bits(v)),
            Err(e) => Err(e),
        }
    }

    fn pack_slice(
        &self,
        data: &mut [u8],
        bitoffset: u8,
        bitsize: usize,
        bitordering: Endianness,
    ) -> (r: PackingResult<()>) {
        if bitoffset != 0 {
            return Err(PackingError::BadAlignment(bitoffset as usize, "Bit offset must be at 0 on this implementation"));
        }
        if bitsize != 0 {
            return Err(PackingError::BadSize(bitsize, "Bit size must be at 0 on this implementation"));
        }
        self.pack(data)
    }

    fn unpack_slice(src: &[u8], bitoffset: u8, bitsize: usize, bitordering: Endianness) -> (r: PackingResult<Self>) {
        if bitoffset != 0 {
            return Err(PackingError::BadAlignment(bitoffset as usize, "Bit offset must be at 0 on this implementation"));
        }
        if bitsize != 0 {
            return Err(PackingError::BadSize(bitsize, "Bit size must be at 0 on this implementation"));
        }
        Self::unpack(src)
    }
}

/// The bits of a [SyncManagerEnable] whose fields fit in their widths, read back as a struct, give the
/// same struct; and any integer of its width, turned into a struct and back, is unchanged.
pub proof fn law_sync_manager_enable_bits_roundtrip(h: SyncManagerEnable, raw: nat)
    ensures
        h.wf() ==> SyncManagerEnable::from_raw(h.raw()) == h,
        raw < 0x100 ==> SyncManagerEnable::from_raw(raw).raw() == raw,
{
    let x_enable: u64 = (if h.enable { 1u64 } else { 0u64 });
    let x_fixed_content: u64 = (if h.fixed_content { 1u64 } else { 0u64 });
    let x_virtual_sync_manager: u64 = (if h.virtual_sync_manager { 1u64 } else { 0u64 });
    let x_oponly: u64 = (if h.oponly { 1u64 } else { 0u64 });
    let x_reserved: u64 = (h.reserved as u64);
    let v: u64 = (x_enable + x_fixed_content * 0x2 + x_virtual_sync_manager * 0x4 + x_oponly * 0x8 + x_reserved * 0x10) as u64;
    let r: u64 = raw as u64;
    assert({
        &&& !(v == x_enable + x_fixed_content * 0x2 + x_virtual_sync_manager * 0x4 + x_oponly * 0x8 + x_reserved * 0x10 && x_enable < 0x2 && x_fixed_content < 0x2 && x_virtual_sync_manager < 0x2 && x_oponly < 0x2 && x_reserved < 0x10) || (v % 0x2 == x_enable && v / 0x2 % 0x2 == x_fixed_content && v / 0x4 % 0x2 == x_virtual_sync_manager && v / 0x8 % 0x2 == x_oponly && v / 0x10 % 0x10 == x_reserved)
        &&& !(r < 0x100) || ((r % 0x2) + (r / 0x2 % 0x2) * 0x2 + (r / 0x4 % 0x2) * 0x4 + (r / 0x8 % 0x2) * 0x8 + (r / 0x10 % 0x10) * 0x10 == r)
    }) by (bit_vector);
    if h.wf() {
        assert(h.raw() == x_enable + x_fixed_content * 0x2 + x_virtual_sync_manager * 0x4 + x_oponly * 0x8 + x_reserved * 0x10);
    }
}
/// use of a sync manager described in the EEPROM
#[derive(Copy, Clone, Debug, PartialEq, Eq, Structural)]
pub enum SyncManagerUsage {
    Disabled,
    MailboxOut,
    MailboxIn,
    ProcessOut,
    ProcessIn,
}

/// code of a [SyncManagerUsage] on the wire
pub open spec fn sync_manager_usage_code(v: SyncManagerUsage) -> u8 {
    match v {
        SyncManagerUsage::Disabled => 0x0,
        SyncManagerUsage::MailboxOut => 0x1,
        SyncManagerUsage::MailboxIn => 0x2,
        SyncManagerUsage::ProcessOut => 0x3,
        SyncManagerUsage::ProcessIn => 0x4,
    }
}

/// the [SyncManagerUsage] of a code on the wire, if any
pub open spec fn sync_manager_usage_of_code(code: u8) -> Option<SyncManagerUsage> {
    match code {
        0x0 => Some(SyncManagerUsage::Disabled),
        0x1 => Some(SyncManagerUsage::MailboxOut),
        0x2 => Some(SyncManagerUsage::MailboxIn),
        0x3 => Some(SyncManagerUsage::ProcessOut),
        0x4 => Some(SyncManagerUsage::ProcessIn),
        _ => None,
    }
}

impl SyncManagerUsage {
    /// code on the wire
    pub fn code(self) -> (r: u8)
        ensures
            r == sync_manager_usage_code(self),
    {
        match self {
            SyncManagerUsage::Disabled => 0x0,
            SyncManagerUsage::MailboxOut => 0x1,
            SyncManagerUsage::MailboxIn => 0x2,
            SyncManagerUsage::ProcessOut => 0x3,
            SyncManagerUsage::ProcessIn => 0x4,
        }
    }

    /// the variant of a code on the wire, if any
    pub fn from_code(code: u8) -> (r: Option<Self>)
        ensures
            r == sync_manager_usage_of_code(code),
    {
        match code {
            0x0 => Some(SyncManagerUsage::Disabled),
            0x1 => Some(SyncManagerUsage::MailboxOut),
            0x2 => Some(SyncManagerUsage::MailboxIn),
            0x3 => Some(SyncManagerUsage::ProcessOut),
            0x4 => Some(SyncManagerUsage::ProcessIn),
            _ => None,
        }
    }
}

/// Decoding the code of a [SyncManagerUsage] gives back the same variant.
pub proof fn law_sync_manager_usage_code_roundtrip(v: SyncManagerUsage)
    ensures
        sync_manager_usage_of_code(sync_manager_usage_code(v)) == Some(v),
{
}
/// ETG.1000.6 table 24
#[derive(Copy, Clone, Debug, PartialEq, Eq, Structural)]
pub struct CategorySyncManager {
    /// Origin of Data (see Physical Start Address of SyncM)
    pub address: u16,
    /// byte length of the sync manager buffer
    pub length: u16,
    /// Defines Mode of Operation (see Control Register of SyncM)
    pub control: u8,
    /// don't care
    pub status: u8,
    /// bits of a [SyncManagerEnable]
    pub enable: u8,
    /// a [SyncManagerUsage] code
    pub usage: u8,
}

impl CategorySyncManager {
    /// the bits of the struct read as an integer, each field truncated to its width
    pub open spec fn raw(&self) -> nat {
        (self.address as nat % 0x10000)
            + (self.length as nat % 0x10000) * 0x10000
            + (self.control as nat % 0x100) * 0x100000000
            + (self.status as nat % 0x100) * 0x10000000000
            + (self.enable as nat % 0x100) * 0x1000000000000
            + (self.usage as nat % 0x100) * 0x100000000000000
    }

    /// every field fits in its width
    pub open spec fn wf(&self) -> bool {
        true
    }

    /// the struct whose bits read as the integer `raw`
    pub open spec fn from_raw(raw: nat) -> Self {
        CategorySyncManager {
            address: (raw % 0x10000) as u16,
            length: (raw / 0x10000 % 0x10000) as u16,
            control: (raw / 0x100000000 % 0x100) as u8,
            status: (raw / 0x10000000000 % 0x100) as u8,
            enable: (raw / 0x1000000000000 % 0x100) as u8,
            usage: (raw / 0x100000000000000 % 0x100) as u8,
        }
    }

    /// the bits of the struct read as an integer, each field truncated to its width
    #[verifier::rlimit(60)]
    pub fn to_bits(&self) -> (r: u64)
        ensures
            r == self.raw(),
    {
        let mut r: u64 = (self.address as u64 % 0x10000);
        assert(r < 0x10000);
        r = r + (self.length as u64 % 0x10000) * 0x10000;
        assert(r < 0x100000000);
        r = r + (self.control as u64 % 0x100) * 0x100000000;
        assert(r < 0x10000000000);
        r = r + (self.status as u64 % 0x100) * 0x10000000000;
        assert(r < 0x1000000000000);
        r = r + (self.enable as u64 % 0x100) * 0x1000000000000;
        assert(r < 0x100000000000000);
        r = r + (self.usage as u64 % 0x100) * 0x100000000000000;
        r
    }

    /// the struct whose bits read as the integer `raw`
    pub fn from_bits(raw: u64) -> (r: Self)
        requires
            raw < 0x10000000000000000,
        ensures
            r == Self::from_raw(raw as nat),
            r.wf(),
    {
        CategorySyncManager {
            address: (raw % 0x10000) as u16,
            length: (raw / 0x10000 % 0x10000) as u16,
            control: (raw / 0x100000000 % 0x100) as u8,
            status: (raw / 0x10000000000 % 0x100) as u8,
            enable: (raw / 0x1000000000000 % 0x100) as u8,
            usage: (raw / 0x100000000000000 % 0x100) as u8,
        }
    }
}

impl PduData for CategorySyncManager {
    const ID: TypeId = TypeId::CUSTOM;
    type Packed = [u8; 8];

    open spec fn pack_defined(len: nat, bitoffset: u8, bitsize: usize, bitordering: Endianness) -> bool {
        true
    }

    open spec fn spec_pack_slice(
        &self,
        data: Seq<u8>,
        bitoffset: u8,
        bitsize: usize,
        bitordering: Endianness,
    ) -> PackingResult<Seq<u8>> {
        bits_pack_slice_result(self.raw(), 8, data, bitoffset, bitsize)
    }

    open spec fn unpack_defined(len: nat, bitoffset: u8, bitsize: usize, bitordering: Endianness) -> bool {
        true
    }

    open spec fn spec_unpack_slice(
        src: Seq<u8>,
        bitoffset: u8,
        bitsize: usize,
        bitordering: Endianness,
    ) -> PackingResult<Self> {
        match bits_unpack_slice_result(src, 8, bitoffset, bitsize) {
            Ok(v) => Ok(Self::from_raw(v)),
            Err(e) => Err(e),
        }
    }

    open spec fn pack_whole_defined(len: nat) -> bool {
        true
    }

    open spec fn spec_pack(&self, data: Seq<u8>) -> PackingResult<Seq<u8>> {
        bits_pack_result(self.raw(), 8, data)
    }

    open spec fn unpack_whole_defined(len: nat) -> bool {
        true
    }

    open spec fn spec_unpack(src: Seq<u8>) -> PackingResult<Self> {
        match bits_unpack_result(src, 8) {
            Ok(v) => Ok(Self::from_raw(v)),
            Err(e) => Err(e),
        }
    }

    fn pack(&self, data: &mut [u8]) -> (r: PackingResult<()>) {
        proof {
            lemma2_to64();
        }
        pack_bits(self.to_bits(), 8, data)
    }

    fn unpack(src: &[u8]) -> (r: PackingResult<Self>) {
        proof {
            lemma2_to64();
            lemma2_to64_rest();
        }
        match unpack_bits(src, 8) {
            Ok(v) => Ok(Self::from_bits(v)),
            Err(e) => Err(e),
        }
    }

    fn pack_slice(
        &self,
        data: &mut [u8],
        bitoffset: u8,
        bitsize: usize,
        bitordering: Endianness,
    ) -> (r: PackingResult<()>) {
        if bitoffset != 0 {
            return Err(PackingError::BadAlignment(bitoffset as usize, "Bit offset must be at 0 on this implementation"));
        }
        if bitsize != 0 {
            return Err(PackingError::BadSize(bitsize, "Bit size must be at 0 on this implementation"));
        }
        self.pack(data)
    }

    fn unpack_slice(src: &[u8], bitoffset: u8, bitsize: usize, bitordering: Endianness) -> (r: PackingResult<Self>) {
        if bitoffset != 0 {
            return Err(PackingError::BadAlignment(bitoffset as usize, "Bit offset must be at 0 on this implementation"));
        }
        if bitsize != 0 {
            return Err(PackingError::BadSize(bitsize, "Bit size must be at 0 on this implementation"));
        }
        Self::unpack(src)
    }
}

/// The bits of a [CategorySyncManager] whose fields fit in their widths, read back as a struct, give the
/// same struct; and any integer of its width, turned into a struct and back, is unchanged.
#[verifier::rlimit(60)]
pub proof fn law_category_sync_manager_bits_roundtrip(h: CategorySyncManager, raw: nat)
    ensures
        h.wf() ==> CategorySyncManager::from_raw(h.raw()) == h,
        raw < 0x10000000000000000 ==> CategorySyncManager::from_raw(raw).raw() == raw,
{
    let x_address: u64 = (h.address as u64);
    let x_length: u64 = (h.length as u64);
    let x_control: u64 = (h.control as u64);
    let x_status: u64 = (h.status as u64);
    let x_enable: u64 = (h.enable as u64);
    let x_usage: u64 = (h.usage as u64);
    let v: u64 = (x_address + x_length * 0x10000 + x_control * 0x100000000 + x_status * 0x10000000000 + x_enable * 0x1000000000000 + x_usage * 0x100000000000000) as u64;
    let r: u64 = raw as u64;
    assert({
        &&& !(v == x_address + x_length * 0x10000 + x_control * 0x100000000 + x_status * 0x10000000000 + x_enable * 0x1000000000000 + x_usage * 0x100000000000000 && x_address < 0x10000 && x_length < 0x10000 && x_control < 0x100 && x_status < 0x100 && x_enable < 0x100 && x_usage < 0x100) || (v % 0x10000 == x_address && v / 0x10000 % 0x10000 == x_length && v / 0x100000000 % 0x100 == x_control && v / 0x10000000000 % 0x100 == x_status && v / 0x1000000000000 % 0x100 == x_enable && v / 0x100000000000000 % 0x100 == x_usage)
        &&& !(r < 0x10000000000000000) || ((r % 0x10000) + (r / 0x10000 % 0x10000) * 0x10000 + (r / 0x100000000 % 0x100) * 0x100000000 + (r / 0x10000000000 % 0x100) * 0x10000000000 + (r / 0x1000000000000 % 0x100) * 0x1000000000000 + (r / 0x100000000000000 % 0x100) * 0x100000000000000 == r)
    }) by (bit_vector);
    if h.wf() {
        assert(h.raw() == x_address + x_length * 0x10000 + x_control * 0x100000000 + x_status * 0x10000000000 + x_enable * 0x1000000000000 + x_usage * 0x100000000000000);
    }
}

impl CategorySyncManager {
    /// enable flags of the sync manager
    pub fn enable(&self) -> (r: SyncManagerEnable)
        ensures
            r == SyncManagerEnable::from_raw(self.enable as nat),
    {
        SyncManagerEnable::from_bits(self.enable as u64)
    }

    /// use of the sync manager, if its code is a known one
    pub fn usage(&self) -> (r: Option<SyncManagerUsage>)
        ensures
            r == sync_manager_usage_of_code(self.usage),
    {
        SyncManagerUsage::from_code(self.usage)
    }
}

/**
    header for category describing a reading or writing PDO

    ETG.1000.6 table 25
*/
#[derive(Copy, Clone, Debug, PartialEq, Eq, Structural)]
pub struct CategoryPdo {
    /// index of SDO configuring the PDO
    pub index: u16,
    /// number of entries in the PDO
    pub entries: u8,
    /// reference to DC-sync
    pub synchronization: u8,
    /// name of the PDO object (reference to category strings)
    pub name: u8,
    /// for future use
    pub flags: u16,
}

impl CategoryPdo {
    /// the bits of the struct read as an integer, each field truncated to its width
    pub open spec fn raw(&self) -> nat {
        (self.index as nat % 0x10000)
            + (self.entries as nat % 0x100) * 0x10000
            + (self.synchronization as nat % 0x100) * 0x1000000
            + (self.name as nat % 0x100) * 0x100000000
            + (self.flags as nat % 0x10000) * 0x10000000000
    }

    /// every field fits in its width
    pub open spec fn wf(&self) -> bool {
        true
    }

    /// the struct whose bits read as the integer `raw`
    pub open spec fn from_raw(raw: nat) -> Self {
        CategoryPdo {
            index: (raw % 0x10000) as u16,
            entries: (raw / 0x10000 % 0x100) as u8,
            synchronization: (raw / 0x1000000 % 0x100) as u8,
            name: (raw / 0x100000000 % 0x100) as u8,
            flags: (raw / 0x10000000000 % 0x10000) as u16,
        }
    }

    /// the bits of the struct read as an integer, each field truncated to its width
    pub fn to_bits(&self) -> (r: u64)
        ensures
            r == self.raw(),
    {
        let mut r: u64 = (self.index as u64 % 0x10000);
        assert(r < 0x10000);
        r = r + (self.entries as u64 % 0x100) * 0x10000;
        assert(r < 0x1000000);
        r = r + (self.synchronization as u64 % 0x100) * 0x1000000;
        assert(r < 0x100000000);
        r = r + (self.name as u64 % 0x100) * 0x100000000;
        assert(r < 0x10000000000);
        r = r + (self.flags as u64 % 0x10000) * 0x10000000000;
        r
    }

    /// the struct whose bits read as the integer `raw`
    pub fn from_bits(raw: u64) -> (r: Self)
        requires
            raw < 0x100000000000000,
        ensures
            r == Self::from_raw(raw as nat),
            r.wf(),
    {
        CategoryPdo {
            index: (raw % 0x10000) as u16,
            entries: (raw / 0x10000 % 0x100) as u8,
            synchronization: (raw / 0x1000000 % 0x100) as u8,
            name: (raw / 0x100000000 % 0x100) as u8,
            flags: (raw / 0x10000000000 % 0x10000) as u16,
        }
    }
}

impl PduData for CategoryPdo {
    const ID: TypeId = TypeId::CUSTOM;
    type Packed = [u8; 7];

    open spec fn pack_defined(len: nat, bitoffset: u8, bitsize: usize, bitordering: Endianness) -> bool {
        true
    }

    open spec fn spec_pack_slice(
        &self,
        data: Seq<u8>,
        bitoffset: u8,
        bitsize: usize,
        bitordering: Endianness,
    ) -> PackingResult<Seq<u8>> {
        bits_pack_slice_result(self.raw(), 7, data, bitoffset, bitsize)
    }

    open spec fn unpack_defined(len: nat, bitoffset: u8, bitsize: usize, bitordering: Endianness) -> bool {
        true
    }

    open spec fn spec_unpack_slice(
        src: Seq<u8>,
        bitoffset: u8,
        bitsize: usize,
        bitordering: Endianness,
    ) -> PackingResult<Self> {
        match bits_unpack_slice_result(src, 7, bitoffset, bitsize) {
            Ok(v) => Ok(Self::from_raw(v)),
            Err(e) => Err(e),
        }
    }

    open spec fn pack_whole_defined(len: nat) -> bool {
        true
    }

    open spec fn spec_pack(&self, data: Seq<u8>) -> PackingResult<Seq<u8>> {
        bits_pack_result(self.raw(), 7, data)
    }

    open spec fn unpack_whole_defined(len: nat) -> bool {
        true
    }

    open spec fn spec_unpack(src: Seq<u8>) -> PackingResult<Self> {
        match bits_unpack_result(src, 7) {
            Ok(v) => Ok(Self::from_raw(v)),
            Err(e) => Err(e),
        }
    }

    fn pack(&self, data: &mut [u8]) -> (r: PackingResult<()>) {
        proof {
            lemma2_to64();
        }
        pack_bits(self.to_bits(), 7, data)
    }

    fn unpack(src: &[u8]) -> (r: PackingResult<Self>) {
        proof {
            lemma2_to64();
            lemma2_to64_rest();
        }
        match unpack_bits(src, 7) {
            Ok(v) => Ok(Self::from_bits(v)),
            Err(e) => Err(e),
        }
    }

    fn pack_slice(
        &self,
        data: &mut [u8],
        bitoffset: u8,
        bitsize: usize,
        bitordering: Endianness,
    ) -> (r: PackingResult<()>) {
        if bitoffset != 0 {
            return Err(PackingError::BadAlignment(bitoffset as usize, "Bit offset must be at 0 on this implementation"));
        }
        if bitsize != 0 {
            return Err(PackingError::BadSize(bitsize, "Bit size must be at 0 on this implementation"));
        }
        self.pack(data)
    }

    fn unpack_slice(src: &[u8], bitoffset: u8, bitsize: usize, bitordering: Endianness) -> (r: PackingResult<Self>) {
        if bitoffset != 0 {
            return Err(PackingError::BadAlignment(bitoffset as usize, "Bit offset must be at 0 on this implementation"));
        }
        if bitsize != 0 {
            return Err(PackingError::BadSize(bitsize, "Bit size must be at 0 on this implementation"));
        }
        Self::unpack(src)
    }
}

/// The bits of a [CategoryPdo] whose fields fit in their widths, read back as a struct, give the
/// same struct; and any integer of its width, turned into a struct and back, is unchanged.
pub proof fn law_category_pdo_bits_roundtrip(h: CategoryPdo, raw: nat)
    ensures
        h.wf() ==> CategoryPdo::from_raw(h.raw()) == h,
        raw < 0x100000000000000 ==> CategoryPdo::from_raw(raw).raw() == raw,
{
    let x_index: u64 = (h.index as u64);
    let x_entries: u64 = (h.entries as u64);
    let x_synchronization: u64 = (h.synchronization as u64);
    let x_name: u64 = (h.name as u64);
    let x_flags: u64 = (h.flags as u64);
    let v: u64 = (x_index + x_entries * 0x10000 + x_synchronization * 0x1000000 + x_name * 0x100000000 + x_flags * 0x10000000000) as u64;
    let r: u64 = raw as u64;
    assert({
        &&& !(v == x_index + x_entries * 0x10000 + x_synchronization * 0x1000000 + x_name * 0x100000000 + x_flags * 0x10000000000 && x_index < 0x10000 && x_entries < 0x100 && x_synchronization < 0x100 && x_name < 0x100 && x_flags < 0x10000) || (v % 0x10000 == x_index && v / 0x10000 % 0x100 == x_entries && v / 0x1000000 % 0x100 == x_synchronization && v / 0x100000000 % 0x100 == x_name && v / 0x10000000000 % 0x10000 == x_flags)
        &&& !(r < 0x100000000000000) || ((r % 0x10000) + (r / 0x10000 % 0x100) * 0x10000 + (r / 0x1000000 % 0x100) * 0x1000000 + (r / 0x100000000 % 0x100) * 0x100000000 + (r / 0x10000000000 % 0x10000) * 0x10000000000 == r)
    }) by (bit_vector);
    if h.wf() {
        assert(h.raw() == x_index + x_entries * 0x10000 + x_synchronization * 0x1000000 + x_name * 0x100000000 + x_flags * 0x10000000000);
    }
}
/**
    structure describing an entry in a PDO

    ETG.1000.6 table 26
*/
#[derive(Copy, Clone, Debug, PartialEq, Eq, Structural)]
pub struct CategoryPdoentry {
    /// index of the SDO
    pub index: u16,
    /// index of field in the SDO (or 0 if complete SDO)
    pub sub: u8,
    /// name of this SDO
    pub name: u8,
    /// data type of the entry
    pub dtype: u8,
    /// data length of the entry
    pub bitlen: u8,
    /// for future use
    pub flags: u16,
}

impl CategoryPdoentry {
    /// the bits of the struct read as an integer, each field truncated to its width
    pub open spec fn raw(&self) -> nat {
        (self.index as nat % 0x10000)
            + (self.sub as nat % 0x100) * 0x10000
            + (self.name as nat % 0x100) * 0x1000000
            + (self.dtype as nat % 0x100) * 0x100000000
            + (self.bitlen as nat % 0x100) * 0x10000000000
            + (self.flags as nat % 0x10000) * 0x1000000000000
    }

    /// every field fits in its width
    pub open spec fn wf(&self) -> bool {
        true
    }

    /// the struct whose bits read as the integer `raw`
    pub open spec fn from_raw(raw: nat) -> Self {
        CategoryPdoentry {
            index: (raw % 0x10000) as u16,
            sub: (raw / 0x10000 % 0x100) as u8,
            name: (raw / 0x1000000 % 0x100) as u8,
            dtype: (raw / 0x100000000 % 0x100) as u8,
            bitlen: (raw / 0x10000000000 % 0x100) as u8,
            flags: (raw / 0x1000000000000 % 0x10000) as u16,
        }
    }

    /// the bits of the struct read as an integer, each field truncated to its width
    #[verifier::rlimit(60)]
    pub fn to_bits(&self) -> (r: u64)
        ensures
            r == self.raw(),
    {
        let mut r: u64 = (self.index as u64 % 0x10000);
        assert(r < 0x10000);
        r = r + (self.sub as u64 % 0x100) * 0x10000;
        assert(r < 0x1000000);
        r = r + (self.name as u64 % 0x100) * 0x1000000;
        assert(r < 0x100000000);
        r = r + (self.dtype as u64 % 0x100) * 0x100000000;
        assert(r < 0x10000000000);
        r = r + (self.bitlen as u64 % 0x100) * 0x10000000000;
        assert(r < 0x1000000000000);
        r = r + (self.flags as u64 % 0x10000) * 0x1000000000000;
        r
    }

    /// the struct whose bits read as the integer `raw`
    pub fn from_bits(raw: u64) -> (r: Self)
        requires
            raw < 0x10000000000000000,
        ensures
            r == Self::from_raw(raw as nat),
            r.wf(),
    {
        CategoryPdoentry {
            index: (raw % 0x10000) as u16,
            sub: (raw / 0x10000 % 0x100) as u8,
            name: (raw / 0x1000000 % 0x100) as u8,
            dtype: (raw / 0x100000000 % 0x100) as u8,
            bitlen: (raw / 0x10000000000 % 0x100) as u8,
            flags: (raw / 0x1000000000000 % 0x10000) as u16,
        }
    }
}

impl PduData for CategoryPdoentry {
    const ID: TypeId = TypeId::CUSTOM;
    type Packed = [u8; 8];

    open spec fn pack_defined(len: nat, bitoffset: u8, bitsize: usize, bitordering: Endianness) -> bool {
        true
    }

    open spec fn spec_pack_slice(
        &self,
        data: Seq<u8>,
        bitoffset: u8,
        bitsize: usize,
        bitordering: Endianness,
    ) -> PackingResult<Seq<u8>> {
        bits_pack_slice_result(self.raw(), 8, data, bitoffset, bitsize)
    }

    open spec fn unpack_defined(len: nat, bitoffset: u8, bitsize: usize, bitordering: Endianness) -> bool {
        true
    }

    open spec fn spec_unpack_slice(
        src: Seq<u8>,
        bitoffset: u8,
        bitsize: usize,
        bitordering: Endianness,
    ) -> PackingResult<Self> {
        match bits_unpack_slice_result(src, 8, bitoffset, bitsize) {
            Ok(v) => Ok(Self::from_raw(v)),
            Err(e) => Err(e),
        }
    }

    open spec fn pack_whole_defined(len: nat) -> bool {
        true
    }

    open spec fn spec_pack(&self, data: Seq<u8>) -> PackingResult<Seq<u8>> {
        bits_pack_result(self.raw(), 8, data)
    }

    open spec fn unpack_whole_defined(len: nat) -> bool {
        true
    }

    open spec fn spec_unpack(src: Seq<u8>) -> PackingResult<Self> {
        match bits_unpack_result(src, 8) {
            Ok(v) => Ok(Self::from_raw(v)),
            Err(e) => Err(e),
        }
    }

    fn pack(&self, data: &mut [u8]) -> (r: PackingResult<()>) {
        proof {
            lemma2_to64();
        }
        pack_bits(self.to_bits(), 8, data)
    }

    fn unpack(src: &[u8]) -> (r: PackingResult<Self>) {
        proof {
            lemma2_to64();
            lemma2_to64_rest();
        }
        match unpack_bits(src, 8) {
            Ok(v) => Ok(Self::from_bits(v)),
            Err(e) => Err(e),
        }
    }

    fn pack_slice(
        &self,
        data: &mut [u8],
        bitoffset: u8,
        bitsize: usize,
        bitordering: Endianness,
    ) -> (r: PackingResult<()>) {
        if bitoffset != 0 {
            return Err(PackingError::BadAlignment(bitoffset as usize, "Bit offset must be at 0 on this implementation"));
        }
        if bitsize != 0 {
            return Err(PackingError::BadSize(bitsize, "Bit size must be at 0 on this implementation"));
        }
        self.pack(data)
    }

    fn unpack_slice(src: &[u8], bitoffset: u8, bitsize: usize, bitordering: Endianness) -> (r: PackingResult<Self>) {
        if bitoffset != 0 {
            return Err(PackingError::BadAlignment(bitoffset as usize, "Bit offset must be at 0 on this implementation"));
        }
        if bitsize != 0 {
            return Err(PackingError::BadSize(bitsize, "Bit size must be at 0 on this implementation"));
        }
        Self::unpack(src)
    }
}

/// The bits of a [CategoryPdoentry] whose fields fit in their widths, read back as a struct, give the
/// same struct; and any integer of its width, turned into a struct and back, is unchanged.
#[verifier::rlimit(60)]
pub proof fn law_category_pdoentry_bits_roundtrip(h: CategoryPdoentry, raw: nat)
    ensures
        h.wf() ==> CategoryPdoentry::from_raw(h.raw()) == h,
        raw < 0x10000000000000000 ==> CategoryPdoentry::from_raw(raw).raw() == raw,
{
    let x_index: u64 = (h.index as u64);
    let x_sub: u64 = (h.sub as u64);
    let x_name: u64 = (h.name as u64);
    let x_dtype: u64 = (h.dtype as u64);
    let x_bitlen: u64 = (h.bitlen as u64);
    let x_flags: u64 = (h.flags as u64);
    let v: u64 = (x_index + x_sub * 0x10000 + x_name * 0x1000000 + x_dtype * 0x100000000 + x_bitlen * 0x10000000000 + x_flags * 0x1000000000000) as u64;
    let r: u64 = raw as u64;
    assert({
        &&& !(v == x_index + x_sub * 0x10000 + x_name * 0x1000000 + x_dtype * 0x100000000 + x_bitlen * 0x10000000000 + x_flags * 0x1000000000000 && x_index < 0x10000 && x_sub < 0x100 && x_name < 0x100 && x_dtype < 0x100 && x_bitlen < 0x100 && x_flags < 0x10000) || (v % 0x10000 == x_index && v / 0x10000 % 0x100 == x_sub && v / 0x1000000 % 0x100 == x_name && v / 0x100000000 % 0x100 == x_dtype && v / 0x10000000000 % 0x100 == x_bitlen && v / 0x1000000000000 % 0x10000 == x_flags)
        &&& !(r < 0x10000000000000000) || ((r % 0x10000) + (r / 0x10000 % 0x100) * 0x10000 + (r / 0x1000000 % 0x100) * 0x1000000 + (r / 0x100000000 % 0x100) * 0x100000000 + (r / 0x10000000000 % 0x100) * 0x10000000000 + (r / 0x1000000000000 % 0x10000) * 0x1000000000000 == r)
    }) by (bit_vector);
    if h.wf() {
        assert(h.raw() == x_index + x_sub * 0x10000 + x_name * 0x1000000 + x_dtype * 0x100000000 + x_bitlen * 0x10000000000 + x_flags * 0x1000000000000);
    }
}
/// ETG.1000.6 table 21: general informations about the slave
#[derive(Copy, Clone, Debug, PartialEq, Eq, Structural)]
pub struct CategoryGeneral {
    /// Group Information (Vendor specific) - Index to STRINGS
    pub group: u8,
    /// Image Name (Vendor specific) - Index to STRINGS
    pub image: u8,
    /// Device Order Number (Vendor specific) - Index to STRINGS
    pub order: u8,
    /// Device Name Information (Vendor specific) - Index to STRINGS
    pub name: u8,
    /// reserved bytes
    pub reserved0: u8,
    /// supported CoE features
    pub coe: CoeDetails,
    /// supported FoE features
    pub foe: FoeDetails,
    /// supported EoE features
    pub eoe: EoeDetails,
    /// reserved bytes
    pub reserved1: u8,
    /// reserved bytes
    pub reserved2: u8,
    /// reserved bytes
    pub reserved3: u8,
    /// general flags
    pub flags: GeneralFlags,
    /// EBus Current Consumption in mA, negative Values means feeding in current feed in sets the available current value to the given value
    pub ebus_current: i16,
    /// Index to Strings, duplicate for compatibility reasons
    pub group2: u8,
    /// reserved bytes
    pub reserved4: u8,
    /// Description of Physical Ports
    pub ports: PhysicialPorts,
    /// ESC memory address where the Identification ID is saved if Identification Method = IdentPhyM
    pub identification_address: u16,
}

impl CategoryGeneral {
    /// bytes of the struct on the wire
    #[verifier::opaque]
    pub open spec fn bytes(&self) -> Seq<u8> {
        seq![
            self.group,
            self.image,
            self.order,
            self.name,
            self.reserved0,
            (self.coe.raw() % 256) as u8,
            (self.foe.raw() % 256) as u8,
            (self.eoe.raw() % 256) as u8,
            self.reserved1,
            self.reserved2,
            self.reserved3,
            (self.flags.raw() % 256) as u8,
            ((self.ebus_current as u16) % 256) as u8,
            ((self.ebus_current as u16) / 256) as u8,
            self.group2,
            self.reserved4,
            (self.ports.raw() % 256) as u8,
            (self.ports.raw() / 256 % 256) as u8,
            (self.identification_address % 256) as u8,
            (self.identification_address / 256) as u8,
        ]
    }

    /// the struct read from the first bytes of `s`
    pub open spec fn from_bytes(s: Seq<u8>) -> Self {
        CategoryGeneral {
            group: s[0],
            image: s[1],
            order: s[2],
            name: s[3],
            reserved0: s[4],
            coe: CoeDetails::from_raw(s[5] as nat),
            foe: FoeDetails::from_raw(s[6] as nat),
            eoe: EoeDetails::from_raw(s[7] as nat),
            reserved1: s[8],
            reserved2: s[9],
            reserved3: s[10],
            flags: GeneralFlags::from_raw(s[11] as nat),
            ebus_current: ((s[12] as int + s[13] as int * 256) as u16) as i16,
            group2: s[14],
            reserved4: s[15],
            ports: PhysicialPorts::from_raw(s[16] as nat + s[17] as nat * 256),
            identification_address: (s[18] as int + s[19] as int * 256) as u16,
        }
    }

    fn to_vec(&self) -> (r: Vec<u8>)
        ensures
            r@ == self.bytes(),
            r@.len() == 20,
    {
        let r: Vec<u8> = vec![
            self.group,
            self.image,
            self.order,
            self.name,
            self.reserved0,
            (self.coe.to_bits() % 256) as u8,
            (self.foe.to_bits() % 256) as u8,
            (self.eoe.to_bits() % 256) as u8,
            self.reserved1,
            self.reserved2,
            self.reserved3,
            (self.flags.to_bits() % 256) as u8,
            ((self.ebus_current as u16) % 256) as u8,
            ((self.ebus_current as u16) / 256) as u8,
            self.group2,
            self.reserved4,
            (self.ports.to_bits() % 256) as u8,
            (self.ports.to_bits() / 256 % 256) as u8,
            (self.identification_address % 256) as u8,
            (self.identification_address / 256) as u8,
        ];
        proof {
            reveal(CategoryGeneral::bytes);
            assert(r@ =~= self.bytes());
        }
        r
    }

    fn from_slice(src: &[u8]) -> (r: Self)
        requires
            src@.len() >= 20,
        ensures
            r == Self::from_bytes(src@),
    {
        CategoryGeneral {
            group: src[0],
            image: src[1],
            order: src[2],
            name: src[3],
            reserved0: src[4],
            coe: CoeDetails::from_bits(src[5] as u64),
            foe: FoeDetails::from_bits(src[6] as u64),
            eoe: EoeDetails::from_bits(src[7] as u64),
            reserved1: src[8],
            reserved2: src[9],
            reserved3: src[10],
            flags: GeneralFlags::from_bits(src[11] as u64),
            ebus_current: (src[12] as u16 + src[13] as u16 * 256) as i16,
            group2: src[14],
            reserved4: src[15],
            ports: PhysicialPorts::from_bits(src[16] as u64 + src[17] as u64 * 256),
            identification_address: src[18] as u16 + src[19] as u16 * 256,
        }
    }
}

impl PduData for CategoryGeneral {
    const ID: TypeId = TypeId::CUSTOM;
    type Packed = [u8; 20];

    open spec fn pack_defined(len: nat, bitoffset: u8, bitsize: usize, bitordering: Endianness) -> bool {
        true
    }

    open spec fn spec_pack_slice(
        &self,
        data: Seq<u8>,
        bitoffset: u8,
        bitsize: usize,
        bitordering: Endianness,
    ) -> PackingResult<Seq<u8>> {
        if bitoffset != 0 {
            Err(PackingError::BadAlignment(bitoffset as usize, "Offset not null"))
        } else if bitsize > data.len() {
            Err(PackingError::BadSize(bitsize, "Size too big for the slice"))
        } else {
            self.spec_pack(data)
        }
    }

    open spec fn unpack_defined(len: nat, bitoffset: u8, bitsize: usize, bitordering: Endianness) -> bool {
        true
    }

    open spec fn spec_unpack_slice(
        src: Seq<u8>,
        bitoffset: u8,
        bitsize: usize,
        bitordering: Endianness,
    ) -> PackingResult<Self> {
        if bitoffset != 0 {
            Err(PackingError::BadAlignment(bitoffset as usize, "Offset not null"))
        } else if bitsize > src.len() {
            Err(PackingError::BadSize(bitsize, "Size too big for the slice"))
        } else {
            Self::spec_unpack(src)
        }
    }

    open spec fn pack_whole_defined(len: nat) -> bool {
        true
    }

    open spec fn spec_pack(&self, data: Seq<u8>) -> PackingResult<Seq<u8>> {
        if data.len() < 20 {
            Err(PackingError::BadSize(data.len() as usize, "not enough bytes for struct"))
        } else {
            Ok(self.bytes() + data.subrange(20, data.len() as int))
        }
    }

    open spec fn unpack_whole_defined(len: nat) -> bool {
        true
    }

    open spec fn spec_unpack(src: Seq<u8>) -> PackingResult<Self> {
        if src.len() < 20 {
            Err(PackingError::BadSize(src.len() as usize, "not enough bytes for struct"))
        } else {
            Ok(Self::from_bytes(src))
        }
    }

    fn pack(&self, data: &mut [u8]) -> (r: PackingResult<()>) {
        if data.len() < 20 {
            return Err(PackingError::BadSize(data.len(), "not enough bytes for struct"));
        }
        let bytes = self.to_vec();
        let ghost d0 = data@;
        let mut i: usize = 0;
        while i < 20
            invariant
                i <= 20,
                20 <= d0.len(),
                bytes@ == self.bytes(),
                bytes@.len() == 20,
                data@.len() == d0.len(),
                forall|j: int| 0 <= j < d0.len() ==> #[trigger] data@[j] == if j < i {
                    bytes@[j]
                } else {
                    d0[j]
                },
            decreases 20 - i,
        {
            data[i] = bytes[i];
            i = i + 1;
        }
        proof {
            assert(data@ =~= self.bytes() + d0.subrange(20, d0.len() as int));
        }
        Ok(())
    }

    fn unpack(src: &[u8]) -> (r: PackingResult<Self>) {
        if src.len() < 20 {
            return Err(PackingError::BadSize(src.len(), "not enough bytes for struct"));
        }
        Ok(Self::from_slice(src))
    }

    fn pack_slice(
        &self,
        data: &mut [u8],
        bitoffset: u8,
        bitsize: usize,
        bitordering: Endianness,
    ) -> (r: PackingResult<()>) {
        if bitoffset != 0 {
            return Err(PackingError::BadAlignment(bitoffset as usize, "Offset not null"));
        }
        if bitsize > data.len() {
            return Err(PackingError::BadSize(bitsize, "Size too big for the slice"));
        }
        self.pack(data)
    }

    fn unpack_slice(src: &[u8], bitoffset: u8, bitsize: usize, bitordering: Endianness) -> (r: PackingResult<Self>) {
        if bitoffset != 0 {
            return Err(PackingError::BadAlignment(bitoffset as usize, "Offset not null"));
        }
        if bitsize > src.len() {
            return Err(PackingError::BadSize(bitsize, "Size too big for the slice"));
        }
        Self::unpack(src)
    }
}
/// the SII control register followed by the SII address register, written at once
#[derive(Copy, Clone, Debug, PartialEq, Eq, Structural)]
pub struct SiiControlAddress {
    /// SII control register
    pub control: SiiControl,
    /// EEPROM word address of the next operation
    pub address: u16,
}

impl SiiControlAddress {
    /// bytes of the struct on the wire
    #[verifier::opaque]
    pub open spec fn bytes(&self) -> Seq<u8> {
        seq![
            (self.control.raw() % 256) as u8,
            (self.control.raw() / 256 % 256) as u8,
            (self.address % 256) as u8,
            (self.address / 256) as u8,
        ]
    }

    /// the struct read from the first bytes of `s`
    pub open spec fn from_bytes(s: Seq<u8>) -> Self {
        SiiControlAddress {
            control: SiiControl::from_raw(s[0] as nat + s[1] as nat * 256),
            address: (s[2] as int + s[3] as int * 256) as u16,
        }
    }

    fn to_vec(&self) -> (r: Vec<u8>)
        ensures
            r@ == self.bytes(),
            r@.len() == 4,
    {
        let r: Vec<u8> = vec![
            (self.control.to_bits() % 256) as u8,
            (self.control.to_bits() / 256 % 256) as u8,
            (self.address % 256) as u8,
            (self.address / 256) as u8,
        ];
        proof {
            reveal(SiiControlAddress::bytes);
            assert(r@ =~= self.bytes());
        }
        r
    }

    fn from_slice(src: &[u8]) -> (r: Self)
        requires
            src@.len() >= 4,
        ensures
            r == Self::from_bytes(src@),
    {
        SiiControlAddress {
            control: SiiControl::from_bits(src[0] as u64 + src[1] as u64 * 256),
            address: src[2] as u16 + src[3] as u16 * 256,
        }
    }
}

impl PduData for SiiControlAddress {
    const ID: TypeId = TypeId::CUSTOM;
    type Packed = [u8; 4];

    open spec fn pack_defined(len: nat, bitoffset: u8, bitsize: usize, bitordering: Endianness) -> bool {
        true
    }

    open spec fn spec_pack_slice(
        &self,
        data: Seq<u8>,
        bitoffset: u8,
        bitsize: usize,
        bitordering: Endianness,
    ) -> PackingResult<Seq<u8>> {
        if bitoffset != 0 {
            Err(PackingError::BadAlignment(bitoffset as usize, "Offset not null"))
        } else if bitsize > data.len() {
            Err(PackingError::BadSize(bitsize, "Size too big for the slice"))
        } else {
            self.spec_pack(data)
        }
    }

    open spec fn unpack_defined(len: nat, bitoffset: u8, bitsize: usize, bitordering: Endianness) -> bool {
        true
    }

    open spec fn spec_unpack_slice(
        src: Seq<u8>,
        bitoffset: u8,
        bitsize: usize,
        bitordering: Endianness,
    ) -> PackingResult<Self> {
        if bitoffset != 0 {
            Err(PackingError::BadAlignment(bitoffset as usize, "Offset not null"))
        } else if bitsize > src.len() {
            Err(PackingError::BadSize(bitsize, "Size too big for the slice"))
        } else {
            Self::spec_unpack(src)
        }
    }

    open spec fn pack_whole_defined(len: nat) -> bool {
        true
    }

    open spec fn spec_pack(&self, data: Seq<u8>) -> PackingResult<Seq<u8>> {
        if data.len() < 4 {
            Err(PackingError::BadSize(data.len() as usize, "not enough bytes for struct"))
        } else {
            Ok(self.bytes() + data.subrange(4, data.len() as int))
        }
    }

    open spec fn unpack_whole_defined(len: nat) -> bool {
        true
    }

    open spec fn spec_unpack(src: Seq<u8>) -> PackingResult<Self> {
        if src.len() < 4 {
            Err(PackingError::BadSize(src.len() as usize, "not enough bytes for struct"))
        } else {
            Ok(Self::from_bytes(src))
        }
    }

    fn pack(&self, data: &mut [u8]) -> (r: PackingResult<()>) {
        if data.len() < 4 {
            return Err(PackingError::BadSize(data.len(), "not enough bytes for struct"));
        }
        let bytes = self.to_vec();
        let ghost d0 = data@;
        let mut i: usize = 0;
        while i < 4
            invariant
                i <= 4,
                4 <= d0.len(),
                bytes@ == self.bytes(),
                bytes@.len() == 4,
                data@.len() == d0.len(),
                forall|j: int| 0 <= j < d0.len() ==> #[trigger] data@[j] == if j < i {
                    bytes@[j]
                } else {
                    d0[j]
                },
            decreases 4 - i,
        {
            data[i] = bytes[i];
            i = i + 1;
        }
        proof {
            assert(data@ =~= self.bytes() + d0.subrange(4, d0.len() as int));
        }
        Ok(())
    }

    fn unpack(src: &[u8]) -> (r: PackingResult<Self>) {
        if src.len() < 4 {
            return Err(PackingError::BadSize(src.len(), "not enough bytes for struct"));
        }
        Ok(Self::from_slice(src))
    }

    fn pack_slice(
        &self,
        data: &mut [u8],
        bitoffset: u8,
        bitsize: usize,
        bitordering: Endianness,
    ) -> (r: PackingResult<()>) {
        if bitoffset != 0 {
            return Err(PackingError::BadAlignment(bitoffset as usize, "Offset not null"));
        }
        if bitsize > data.len() {
            return Err(PackingError::BadSize(bitsize, "Size too big for the slice"));
        }
        self.pack(data)
    }

    fn unpack_slice(src: &[u8], bitoffset: u8, bitsize: usize, bitordering: Endianness) -> (r: PackingResult<Self>) {
        if bitoffset != 0 {
            return Err(PackingError::BadAlignment(bitoffset as usize, "Offset not null"));
        }
        if bitsize > src.len() {
            return Err(PackingError::BadSize(bitsize, "Size too big for the slice"));
        }
        Self::unpack(src)
    }
}
/// the SII control, address and data registers, written at once
#[derive(Copy, Clone, Debug, PartialEq, Eq, Structural)]
pub struct SiiControlAddressData {
    /// SII control register
    pub control: SiiControl,
    /// EEPROM word address of the next operation
    pub address: u16,
    /// reserved bytes
    pub reserved: u16,
    /// the 2 bytes to write, first one least significant
    pub data: u16,
}

impl SiiControlAddressData {
    /// bytes of the struct on the wire
    #[verifier::opaque]
    pub open spec fn bytes(&self) -> Seq<u8> {
        seq![
            (self.control.raw() % 256) as u8,
            (self.control.raw() / 256 % 256) as u8,
            (self.address % 256) as u8,
            (self.address / 256) as u8,
            (self.reserved % 256) as u8,
            (self.reserved / 256) as u8,
            (self.data % 256) as u8,
            (self.data / 256) as u8,
        ]
    }

    /// the struct read from the first bytes of `s`
    pub open spec fn from_bytes(s: Seq<u8>) -> Self {
        SiiControlAddressData {
            control: SiiControl::from_raw(s[0] as nat + s[1] as nat * 256),
            address: (s[2] as int + s[3] as int * 256) as u16,
            reserved: (s[4] as int + s[5] as int * 256) as u16,
            data: (s[6] as int + s[7] as int * 256) as u16,
        }
    }

    fn to_vec(&self) -> (r: Vec<u8>)
        ensures
            r@ == self.bytes(),
            r@.len() == 8,
    {
        let r: Vec<u8> = vec![
            (self.control.to_bits() % 256) as u8,
            (self.control.to_bits() / 256 % 256) as u8,
            (self.address % 256) as u8,
            (self.address / 256) as u8,
            (self.reserved % 256) as u8,
            (self.reserved / 256) as u8,
            (self.data % 256) as u8,
            (self.data / 256) as u8,
        ];
        proof {
            reveal(SiiControlAddressData::bytes);
            assert(r@ =~= self.bytes());
        }
        r
    }

    fn from_slice(src: &[u8]) -> (r: Self)
        requires
            src@.len() >= 8,
        ensures
            r == Self::from_bytes(src@),
    {
        SiiControlAddressData {
            control: SiiControl::from_bits(src[0] as u64 + src[1] as u64 * 256),
            address: src[2] as u16 + src[3] as u16 * 256,
            reserved: src[4] as u16 + src[5] as u16 * 256,
            data: src[6] as u16 + src[7] as u16 * 256,
        }
    }
}

impl PduData for SiiControlAddressData {
    const ID: TypeId = TypeId::CUSTOM;
    type Packed = [u8; 8];

    open spec fn pack_defined(len: nat, bitoffset: u8, bitsize: usize, bitordering: Endianness) -> bool {
        true
    }

    open spec fn spec_pack_slice(
        &self,
        data: Seq<u8>,
        bitoffset: u8,
        bitsize: usize,
        bitordering: Endianness,
    ) -> PackingResult<Seq<u8>> {
        if bitoffset != 0 {
            Err(PackingError::BadAlignment(bitoffset as usize, "Offset not null"))
        } else if bitsize > data.len() {
            Err(PackingError::BadSize(bitsize, "Size too big for the slice"))
        } else {
            self.spec_pack(data)
        }
    }

    open spec fn unpack_defined(len: nat, bitoffset: u8, bitsize: usize, bitordering: Endianness) -> bool {
        true
    }

    open spec fn spec_unpack_slice(
        src: Seq<u8>,
        bitoffset: u8,
        bitsize: usize,
        bitordering: Endianness,
    ) -> PackingResult<Self> {
        if bitoffset != 0 {
            Err(PackingError::BadAlignment(bitoffset as usize, "Offset not null"))
        } else if bitsize > src.len() {
            Err(PackingError::BadSize(bitsize, "Size too big for the slice"))
        } else {
            Self::spec_unpack(src)
        }
    }

    open spec fn pack_whole_defined(len: nat) -> bool {
        true
    }

    open spec fn spec_pack(&self, data: Seq<u8>) -> PackingResult<Seq<u8>> {
        if data.len() < 8 {
            Err(PackingError::BadSize(data.len() as usize, "not enough bytes for struct"))
        } else {
            Ok(self.bytes() + data.subrange(8, data.len() as int))
        }
    }

    open spec fn unpack_whole_defined(len: nat) -> bool {
        true
    }

    open spec fn spec_unpack(src: Seq<u8>) -> PackingResult<Self> {
        if src.len() < 8 {
            Err(PackingError::BadSize(src.len() as usize, "not enough bytes for struct"))
        } else {
            Ok(Self::from_bytes(src))
        }
    }

    fn pack(&self, data: &mut [u8]) -> (r: PackingResult<()>) {
        if data.len() < 8 {
            return Err(PackingError::BadSize(data.len(), "not enough bytes for struct"));
        }
        let bytes = self.to_vec();
        let ghost d0 = data@;
        let mut i: usize = 0;
        while i < 8
            invariant
                i <= 8,
                8 <= d0.len(),
                bytes@ == self.bytes(),
                bytes@.len() == 8,
                data@.len() == d0.len(),
                forall|j: int| 0 <= j < d0.len() ==> #[trigger] data@[j] == if j < i {
                    bytes@[j]
                } else {
                    d0[j]
                },
            decreases 8 - i,
        {
            data[i] = bytes[i];
            i = i + 1;
        }
        proof {
            assert(data@ =~= self.bytes() + d0.subrange(8, d0.len() as int));
        }
        Ok(())
    }

    fn unpack(src: &[u8]) -> (r: PackingResult<Self>) {
        if src.len() < 8 {
            return Err(PackingError::BadSize(src.len(), "not enough bytes for struct"));
        }
        Ok(Self::from_slice(src))
    }

    fn pack_slice(
        &self,
        data: &mut [u8],
        bitoffset: u8,
        bitsize: usize,
        bitordering: Endianness,
    ) -> (r: PackingResult<()>) {
        if bitoffset != 0 {
            return Err(PackingError::BadAlignment(bitoffset as usize, "Offset not null"));
        }
        if bitsize > data.len() {
            return Err(PackingError::BadSize(bitsize, "Size too big for the slice"));
        }
        self.pack(data)
    }

    fn unpack_slice(src: &[u8], bitoffset: u8, bitsize: usize, bitordering: Endianness) -> (r: PackingResult<Self>) {
        if bitoffset != 0 {
            return Err(PackingError::BadAlignment(bitoffset as usize, "Offset not null"));
        }
        if bitsize > src.len() {
            return Err(PackingError::BadSize(bitsize, "Size too big for the slice"));
        }
        Self::unpack(src)
    }
}
/// SII control register followed by the SII address register, written at once to start a read
pub fn sii_control_address() -> (r: Field<SiiControlAddress>)
    ensures
        r.offset == 0x0502,
        r.len == 4,
        r.endian == Endianness::Little,
{
    Field::simple(0x0502)
}

/// SII control, address and data registers, written at once to start a write
pub fn sii_control_address_data() -> (r: Field<SiiControlAddressData>)
    ensures
        r.offset == 0x0502,
        r.len == 8,
        r.endian == Endianness::Little,
{
    Field::simple(0x0502)
}

/// SII data register: the bytes read by the last read operation, first byte least significant
pub fn sii_data() -> (r: Field<u64>)
    ensures
        r.offset == 0x0508,
        r.len == 8,
        r.endian == Endianness::Little,
{
    Field::simple(0x0508)
}

/// error raised by the SII of a slave
#[derive(Copy, Clone, Debug, PartialEq, Eq, Structural)]
pub enum SiiError {
    /// bad SII command
    Command,
    /// EEPROM data has been corrupted
    Checksum,
    /// bad data in device info section
    DeviceInfo,
    /// cannot write the requested location in EEPROM
    Write,
}

/// the SII control register requesting the given operations, every other flag unset
pub open spec fn sii_request(read: bool, write: bool, reload: bool) -> SiiControl {
    SiiControl {
        write_access: false,
        reserved: 0,
        eeprom_emulation: false,
        read_size: false,
        address_unit: false,
        read_operation: read,
        write_operation: write,
        reload_operation: reload,
        checksum_error: false,
        device_info_error: false,
        command_error: false,
        write_error: false,
        busy: false,
    }
}

fn make_request(read: bool, write: bool, reload: bool) -> (r: SiiControl)
    ensures
        r == sii_request(read, write, reload),
{
    SiiControl {
        write_access: false,
        reserved: 0,
        eeprom_emulation: false,
        read_size: false,
        address_unit: false,
        read_operation: read,
        write_operation: write,
        reload_operation: reload,
        checksum_error: false,
        device_info_error: false,
        command_error: false,
        write_error: false,
        busy: false,
    }
}

/// the SII access register giving the SII to the PDI (`true`) or to the ethercat DL (`false`)
pub open spec fn sii_access_for(pdi: bool) -> SiiAccess {
    SiiAccess { owner: pdi, lock: false, reserved0: 0, pdi: false, reserved1: 0 }
}

/// the SII access register value giving the SII to the PDI (`true`) or to the ethercat DL (`false`)
pub fn sii_access_value(pdi: bool) -> (r: SiiAccess)
    ensures
        r == sii_access_for(pdi),
{
    SiiAccess { owner: pdi, lock: false, reserved0: 0, pdi: false, reserved1: 0 }
}

/// byte count of a read transaction announced by the SII control register
pub open spec fn transaction_size(status: SiiControl) -> usize {
    if status.read_size { 8 } else { 4 }
}

/**
    a read without error gives the byte count the slave reads per transaction, as its control register announces it:
    4 bytes when the read size bit is clear, 8 when it is set; so only the 4 first bytes of the data register belong to
    the EEPROM on a slave reading 4 bytes at a time
*/
pub proof fn law_read_transaction_size(status: SiiControl)
    ensures
        read_error(status) is None ==> transaction_size(status) == (if status.read_size { 8usize } else { 4usize }),
        !status.read_size ==> transaction_size(status) == 4,
        status.read_size ==> transaction_size(status) == 8,
        transaction_size(status) == 4 + 4 * (if status.read_size { 1usize } else { 0usize }),
{
}

/// the error reported by the SII control register after a read, if any
pub open spec fn read_error(status: SiiControl) -> Option<SiiError> {
    if status.command_error {
        Some(SiiError::Command)
    } else if status.device_info_error {
        Some(SiiError::DeviceInfo)
    } else {
        None
    }
}

/// the error reported by the SII control register after a write, if any
pub open spec fn write_error(status: SiiControl) -> Option<SiiError> {
    if status.command_error {
        Some(SiiError::Command)
    } else if status.write_error {
        Some(SiiError::Write)
    } else {
        None
    }
}

/// the error reported by the SII control register after a reload, if any
pub open spec fn reload_error(status: SiiControl) -> Option<SiiError> {
    if status.command_error {
        Some(SiiError::Command)
    } else if status.checksum_error {
        Some(SiiError::Checksum)
    } else if status.device_info_error {
        Some(SiiError::DeviceInfo)
    } else {
        None
    }
}

/// number of bytes of a read transaction of `transaction` bytes, starting at byte `start` of
/// the transaction, that land in a buffer which has `remain` bytes left to fill
pub open spec fn chunk_len(start: usize, transaction: usize, remain: nat) -> nat {
    if transaction - start < remain {
        (transaction - start) as nat
    } else {
        remain
    }
}

/**
    implementation of the Slave Information Interface (SII) to communicate with a slave's EEPROM memory

    The EEPROM has 2 regions of data:

    - EEPROM registers: at fixed addresses, located by the `eeprom_*` fields
    - EEPROM categories: as contiguous data blocks, starting from fixed address [CATEGORIES]

    This struct holds the state of the SII of one slave and decides the content of the SII registers to exchange with it; to parse the categories, use a cursor returned by [Self::categories] then parse the structures iteratively.

    At contrary to the EEPROM addresses used at the ethercat communication level, this struct and its methods only use byte addresses, write requests should be word-aligned.
*/
pub struct Sii {
    /// address of the slave
    pub slave: SlaveAddress,
    /// address mask (part of the address actually used by the slave)
    pub mask: u16,
    /// whether the EEPROM is writable through the SII
    pub writable: bool,
    /// whether the master owns access to the SII (and EEPROM)
    pub locked: bool,
}

impl Sii {
    /**
        the SII of the given slave, from the SII control register read on it

        to stay protocol-safe, one instance of this struct only should exist per slave.
    */
    pub fn new(slave: SlaveAddress, status: SiiControl) -> (r: Result<Sii, EthercatError<SiiError>>)
        ensures
            status.checksum_error ==> r == Err::<Sii, EthercatError<SiiError>>(EthercatError::Slave(SiiError::Checksum)),
            !status.checksum_error ==> r == Ok::<Sii, EthercatError<SiiError>>(Sii {
                slave,
                mask: if status.address_unit { 0xffff } else { 0xff },
                writable: status.write_access,
                locked: false,
            }),
    {
        let mask: u16 = if status.address_unit { 0xffff } else { 0xff };
        if status.checksum_error {
            return Err(EthercatError::Slave(SiiError::Checksum));
        }
        Ok(Sii { slave, mask, writable: status.write_access, locked: false })
    }

    /// tells if the EEPROM is writable through the SII
    pub fn writable(&self) -> (r: bool)
        ensures
            r == self.writable,
    {
        self.writable
    }

    /**
        acquire the SII so we can use it through the registers: returns the value to write in the SII access register, if it was not already acquired

        The access to the EEPROM is always made through the SII, even internally for the slave, which mean for the slave to access its EEPROM, the master should not have it.
    */
    pub fn acquire(&mut self) -> (r: Option<SiiAccess>)
        ensures
            final(self).locked,
            final(self).slave == old(self).slave,
            final(self).mask == old(self).mask,
            final(self).writable == old(self).writable,
            old(self).locked ==> r is None,
            !old(self).locked ==> r == Some(sii_access_for(false)),
    {
        if !self.locked {
            self.locked = true;
            Some(sii_access_value(false))
        } else {
            None
        }
    }

    /**
        release the SII to the device internal control: returns the value to write in the SII access register, if it was acquired

        The access to the EEPROM usually needs to be released during slave initialization steps (meaning for state transitions).
    */
    pub fn release(&mut self) -> (r: Option<SiiAccess>)
        ensures
            !final(self).locked,
            final(self).slave == old(self).slave,
            final(self).mask == old(self).mask,
            final(self).writable == old(self).writable,
            !old(self).locked ==> r is None,
            old(self).locked ==> r == Some(sii_access_for(true)),
    {
        if self.locked {
            self.locked = false;
            Some(sii_access_value(true))
        } else {
            None
        }
    }

    /// cursor pointing at the start of categories. See [CategoryHeader]
    pub fn categories(&self) -> (r: SiiCursor)
        ensures
            r.position == CATEGORIES,
    {
        SiiCursor { position: CATEGORIES }
    }
}

/// control and address registers starting the read of the EEPROM word holding the byte `address + done`
pub fn read_request(address: u16, done: u16) -> (r: SiiControlAddress)
    requires
        address + done <= u16::MAX,
    ensures
        r.control == sii_request(true, false, false),
        r.address == (address + done) / 2,
{
    SiiControlAddress { control: make_request(true, false, false), address: (address + done) / WORD }
}

/// whether the SII control register shows the end of a read operation
pub fn read_finished(status: &SiiControl) -> (r: bool)
    ensures
        r == (!status.busy && !status.read_operation),
{
    !status.busy && !status.read_operation
}

/// outcome of a read operation given the SII control register at its end: the transaction size, or the error
pub fn read_status(status: &SiiControl) -> (r: Result<usize, EthercatError<SiiError>>)
    ensures
        match read_error(*status) {
            Some(e) => r == Err::<usize, EthercatError<SiiError>>(EthercatError::Slave(e)),
            None => r == Ok::<usize, EthercatError<SiiError>>(transaction_size(*status)),
        },
{
    if status.command_error {
        return Err(EthercatError::Slave(SiiError::Command));
    }
    if status.device_info_error {
        return Err(EthercatError::Slave(SiiError::DeviceInfo));
    }
    Ok(if status.read_size { 8 } else { 4 })
}

/**
    place the bytes of a read transaction in the buffer being filled

    `data` holds the SII data register, `transaction` the count of its bytes that were read, `start` the first of them that belongs to the buffer, `position` the count of bytes of the buffer already filled. Returns the new count of bytes filled.
*/
pub fn read_chunk(dst: &mut [u8], position: usize, start: usize, transaction: usize, data: &[u8]) -> (r: usize)
    requires
        position < old(dst)@.len(),
        start < transaction,
        transaction <= data@.len(),
    ensures
        r == position + chunk_len(start, transaction, (old(dst)@.len() - position) as nat),
        final(dst)@ == old(dst)@.subrange(0, position as int) + data@.subrange(
            start as int,
            start + chunk_len(start, transaction, (old(dst)@.len() - position) as nat),
        ) + old(dst)@.subrange(r as int, old(dst)@.len() as int),
{
    let remain = dst.len() - position;
    let count: usize = if transaction - start < remain { transaction - start } else { remain };
    let ghost d0 = dst@;
    let mut i: usize = 0;
    while i < count
        invariant
            i <= count,
            count == chunk_len(start, transaction, (d0.len() - position) as nat),
            position + count <= dst.len(),
            start + count <= data.len(),
            dst@.len() == d0.len(),
            forall|j: int| 0 <= j < d0.len() ==> #[trigger] dst@[j] == if position <= j < position + i {
                data@[start + j - position]
            } else {
                d0[j]
            },
        decreases count - i,
    {
        dst[position + i] = data[start + i];
        i = i + 1;
    }
    proof {
        assert(dst@ =~= d0.subrange(0, position as int) + data@.subrange(start as int, start + count)
            + d0.subrange(position + count, d0.len() as int));
    }
    position + count
}

/// checks that an EEPROM byte address can start a write
pub fn write_check(address: u16) -> (r: Result<(), EthercatError<SiiError>>)
    ensures
        address % 2 != 0 ==> r == Err::<(), EthercatError<SiiError>>(EthercatError::Master("address must be word-aligned")),
        address % 2 == 0 ==> r is Ok,
{
    if address % WORD != 0 {
        return Err(EthercatError::Master("address must be word-aligned"));
    }
    Ok(())
}

/// control, address and data registers starting the write of the 2 bytes of `value` at `done`, at EEPROM byte `address + done`
pub fn write_request(address: u16, value: &[u8], done: usize) -> (r: SiiControlAddressData)
    requires
        done + 2 <= value@.len(),
        address + done <= u16::MAX,
    ensures
        r.control == sii_request(false, true, false),
        r.address == (address + done) / 2,
        r.reserved == 0,
        r.data == value@[done as int] + value@[done + 1] * 256,
{
    SiiControlAddressData {
        control: make_request(false, true, false),
        address: (address + done as u16) / WORD,
        reserved: 0,
        data: value[done] as u16 + value[done + 1] as u16 * 256,
    }
}

/// whether the SII control register shows the end of a write operation
pub fn write_finished(status: &SiiControl) -> (r: bool)
    ensures
        r == (!status.busy && !status.write_operation),
{
    !status.busy && !status.write_operation
}

/// outcome of a write operation given the SII control register at its end
pub fn write_status(status: &SiiControl) -> (r: Result<(), EthercatError<SiiError>>)
    ensures
        match write_error(*status) {
            Some(e) => r == Err::<(), EthercatError<SiiError>>(EthercatError::Slave(e)),
            None => r is Ok,
        },
{
    if status.command_error {
        return Err(EthercatError::Slave(SiiError::Command));
    }
    if status.write_error {
        return Err(EthercatError::Slave(SiiError::Write));
    }
    Ok(())
}

/// control register starting the reload of the first 128 bits of data from the EEPROM
pub fn reload_request() -> (r: SiiControl)
    ensures
        r == sii_request(false, false, true),
{
    make_request(false, false, true)
}

/// whether the SII control register shows the end of a reload operation
pub fn reload_finished(status: &SiiControl) -> (r: bool)
    ensures
        r == (!status.busy && !status.reload_operation),
{
    !status.busy && !status.reload_operation
}

/// outcome of a reload operation given the SII control register at its end
pub fn reload_status(status: &SiiControl) -> (r: Result<(), EthercatError<SiiError>>)
    ensures
        match reload_error(*status) {
            Some(e) => r == Err::<(), EthercatError<SiiError>>(EthercatError::Slave(e)),
            None => r is Ok,
        },
{
    if status.command_error {
        return Err(EthercatError::Slave(SiiError::Command));
    }
    if status.checksum_error {
        return Err(EthercatError::Slave(SiiError::Checksum));
    }
    if status.device_info_error {
        return Err(EthercatError::Slave(SiiError::DeviceInfo));
    }
    Ok(())
}

/**
    position in the EEPROM when parsing its categories

    It is inspired from [crate::data::Cursor] but its bytes are read and written in the EEPROM, through the SII, by its user
*/
#[derive(Copy, Clone, Debug, PartialEq, Eq, Structural)]
pub struct SiiCursor {
    /// byte position in the EEPROM
    pub position: u16,
}

impl SiiCursor {
    /// initialize at the given byte position in the EEPROM
    pub fn new(position: u16) -> (r: Self)
        ensures
            r.position == position,
    {
        SiiCursor { position }
    }

    /// byte position in the EEPROM
    pub fn position(&self) -> (r: u16)
        ensures
            r == self.position,
    {
        self.position
    }

    /// create a new instance of cursor at the same location, it is only meant to ease practice of parsing multiple time the same region
    pub fn shadow(&self) -> (r: SiiCursor)
        ensures
            r.position == self.position,
    {
        SiiCursor { position: self.position }
    }

    /// advance byte position of the given increment
    pub fn advance(&mut self, increment: u16)
        requires
            old(self).position + increment <= u16::MAX,
        ensures
            final(self).position == old(self).position + increment,
    {
        self.position = self.position + increment;
    }
}

/// message of the error reporting that the EEPROM has no category of the given type
pub open spec fn missing_category(wanted: CategoryType) -> &'static str {
    match wanted {
        CategoryType::Strings => "no strings category in EEPROM",
        CategoryType::General => "no general category in EEPROM",
        _ => "no such category in EEPROM",
    }
}

/**
    decision taken on a category header when searching a category of type `wanted`:
    `None` if the category following the header is the wanted one, else the count of bytes to advance to reach the next header, or the error reporting the end of the categories
*/
pub fn category_step(header: &CategoryHeader, wanted: CategoryType) -> (r: Result<Option<u16>, EthercatError<SiiError>>)
    requires
        category_type(header.ty) != wanted && category_type(header.ty) != CategoryType::End
            ==> header.size * 2 <= u16::MAX,
    ensures
        category_type(header.ty) == wanted ==> r == Ok::<Option<u16>, EthercatError<SiiError>>(None),
        category_type(header.ty) != wanted && category_type(header.ty) == CategoryType::End
            ==> r == Err::<Option<u16>, EthercatError<SiiError>>(EthercatError::Master(missing_category(wanted))),
        category_type(header.ty) != wanted && category_type(header.ty) != CategoryType::End
            ==> r == Ok::<Option<u16>, EthercatError<SiiError>>(Some((header.size * 2) as u16)),
{
    let ty = header.ty();
    if ty == wanted {
        Ok(None)
    } else if ty == CategoryType::End {
        Err(EthercatError::Master(
            match wanted {
                CategoryType::Strings => "no strings category in EEPROM",
                CategoryType::General => "no general category in EEPROM",
                _ => "no such category in EEPROM",
            },
        ))
    } else {
        Ok(Some(WORD * header.size))
    }
}

/// the `n` length-prefixed strings starting at `pos` in `s`, if they all fit in `s`
pub open spec fn strings_at(s: Seq<u8>, pos: int, n: nat) -> Option<Seq<Seq<u8>>>
    decreases n,
{
    if n == 0 {
        Some(Seq::empty())
    } else if pos < 0 || pos >= s.len() {
        None
    } else {
        let len = s[pos] as int;
        if pos + 1 + len > s.len() {
            None
        } else {
            match strings_at(s, pos + 1 + len, (n - 1) as nat) {
                Some(rest) => Some(seq![s.subrange(pos + 1, pos + 1 + len)] + rest),
                None => None,
            }
        }
    }
}

/// the strings held by the content of a strings category: a count, then each string preceded by its length
pub open spec fn category_strings(s: Seq<u8>) -> Option<Seq<Seq<u8>>> {
    if s.len() == 0 {
        None
    } else {
        strings_at(s, 1, s[0] as nat)
    }
}

/// `prefix` followed by the sequence in `rest`, if any
pub open spec fn prepend(prefix: Seq<Seq<u8>>, rest: Option<Seq<Seq<u8>>>) -> Option<Seq<Seq<u8>>> {
    match rest {
        Some(r) => Some(prefix + r),
        None => None,
    }
}

/**
    the strings of the strings category of the EEPROM, given the content of the category

    these strings are usually pointed to by sdo values or other fields in the EEPROM's categories
*/
pub fn parse_strings(content: &[u8]) -> (r: Result<Vec<Vec<u8>>, EthercatError<SiiError>>)
    ensures
        match category_strings(content@) {
            Some(strings) => r is Ok && r->Ok_0@.map_values(|v: Vec<u8>| v@) == strings,
            None => r == Err::<Vec<Vec<u8>>, EthercatError<SiiError>>(EthercatError::Master("strings category is truncated")),
        },
{
    if content.len() == 0 {
        return Err(EthercatError::Master("strings category is truncated"));
    }
    let num = content[0];
    let mut strings: Vec<Vec<u8>> = Vec::new();
    let mut pos: usize = 1;
    let mut k: u8 = 0;
    while k < num
        invariant
            k <= num,
            num == content@[0],
            1 <= pos <= content@.len(),
            category_strings(content@) == prepend(
                strings@.map_values(|v: Vec<u8>| v@),
                strings_at(content@, pos as int, (num - k) as nat),
            ),
        decreases num - k,
    {
        if pos >= content.len() {
            return Err(EthercatError::Master("strings category is truncated"));
        }
        let len = content[pos] as usize;
        if len > content.len() - pos - 1 {
            return Err(EthercatError::Master("strings category is truncated"));
        }
        let mut text: Vec<u8> = Vec::new();
        let mut i: usize = 0;
        while i < len
            invariant
                i <= len,
                pos + 1 + len <= content.len(),
                text@ == content@.subrange(pos + 1, pos + 1 + i),
            decreases len - i,
        {
            text.push(content[pos + 1 + i]);
            i = i + 1;
            proof {
                assert(text@ =~= content@.subrange(pos + 1, pos + 1 + i));
            }
        }
        let ghost before = strings@.map_values(|v: Vec<u8>| v@);
        let ghost rest = strings_at(content@, (pos + 1 + len) as int, (num - k - 1) as nat);
        strings.push(text);
        proof {
            assert(strings@.map_values(|v: Vec<u8>| v@) =~= before.push(content@.subrange(pos + 1, pos + 1 + len)));
            match rest {
                Some(r) => {
                    assert(before + (seq![content@.subrange(pos + 1, pos + 1 + len as int)] + r)
                        =~= before.push(content@.subrange(pos + 1, pos + 1 + len)) + r);
                },
                None => {},
            }
        }
        pos = pos + 1 + len;
        k = k + 1;
    }
    proof {
        assert(strings@.map_values(|v: Vec<u8>| v@) + Seq::<Seq<u8>>::empty() =~= strings@.map_values(|v: Vec<u8>| v@));
    }
    Ok(strings)
}

/// the text that bytes encode in UTF-8, if they are valid UTF-8
pub uninterp spec fn utf8_text(bytes: Seq<u8>) -> Option<Seq<char>>;

/// `String::from_utf8`: the text that the bytes encode, if they are valid UTF-8; its result depends on the bytes alone
#[verifier::external_body]
fn decode_utf8(bytes: &[u8]) -> (r: Option<String>)
    ensures
        match r {
            Some(text) => utf8_text(bytes@) == Some(text@),
            None => utf8_text(bytes@) is None,
        },
{
    String::from_utf8(bytes.to_vec()).ok()
}

/// the texts of strings, if they are all valid UTF-8
pub open spec fn utf8_texts(strings: Seq<Seq<u8>>) -> Option<Seq<Seq<char>>>
    decreases strings.len(),
{
    if strings.len() == 0 {
        Some(Seq::empty())
    } else {
        match utf8_texts(strings.drop_last()) {
            Some(texts) => match utf8_text(strings.last()) {
                Some(text) => Some(texts.push(text)),
                None => None,
            },
            None => None,
        }
    }
}

/// an invalid string makes the texts of longer sequences of strings invalid
proof fn lemma_utf8_texts_invalid(strings: Seq<Seq<u8>>, i: int, j: int)
    requires
        0 <= i <= j <= strings.len(),
        utf8_texts(strings.subrange(0, i)) is None,
    ensures
        utf8_texts(strings.subrange(0, j)) is None,
    decreases j - i,
{
    if i < j {
        lemma_utf8_texts_invalid(strings, i, j - 1);
        assert(strings.subrange(0, j).drop_last() =~= strings.subrange(0, j - 1));
    }
}

/// the texts of the strings of the EEPROM, which must be valid UTF-8
pub fn decode_strings(strings: &[Vec<u8>]) -> (r: Result<Vec<String>, EthercatError<SiiError>>)
    ensures
        match utf8_texts(strings@.map_values(|v: Vec<u8>| v@)) {
            Some(texts) => r is Ok && r->Ok_0@.map_values(|t: String| t@) == texts,
            None => r == Err::<Vec<String>, EthercatError<SiiError>>(EthercatError::Master("strings in EEPROM are not UTF8")),
        },
{
    let ghost bytes = strings@.map_values(|v: Vec<u8>| v@);
    let mut texts: Vec<String> = Vec::new();
    let mut i: usize = 0;
    while i < strings.len()
        invariant
            bytes == strings@.map_values(|v: Vec<u8>| v@),
            i <= strings@.len(),
            utf8_texts(bytes.subrange(0, i as int)) == Some(texts@.map_values(|t: String| t@)),
        decreases strings@.len() - i,
    {
        proof {
            assert(bytes.subrange(0, i + 1).drop_last() =~= bytes.subrange(0, i as int));
            assert(bytes.subrange(0, i + 1).last() == strings@[i as int]@);
            assert(bytes.subrange(0, bytes.len() as int) =~= bytes);
        }
        match decode_utf8(strings[i].as_slice()) {
            Some(text) => {
                let ghost before = texts@.map_values(|t: String| t@);
                texts.push(text);
                proof {
                    assert(texts@.map_values(|t: String| t@) =~= before.push(text@));
                }
            },
            None => {
                proof {
                    lemma_utf8_texts_invalid(bytes, i + 1, bytes.len() as int);
                }
                return Err(EthercatError::Master("strings in EEPROM are not UTF8"));
            },
        }
        i = i + 1;
    }
    proof {
        assert(bytes.subrange(0, bytes.len() as int) =~= bytes);
    }
    Ok(texts)
}

/// Reading the EEPROM chunk by chunk gives back its bytes: when the SII data register holds the EEPROM
/// bytes from the word of byte `address + done`, and the chunk starts at the place of that byte in its
/// word, the chunk placed in the buffer is the EEPROM from byte `address + done` on; and when the
/// transaction was used up before the buffer, the next byte to read starts a word.
pub proof fn law_read_chunk_follows_eeprom(eeprom: Seq<u8>, address: int, done: int, remain: nat, transaction: usize, data: Seq<u8>)
    requires
        0 <= address,
        0 <= done,
        transaction == 4 || transaction == 8,
        remain > 0,
        data.len() >= transaction,
        2 * ((address + done) / 2) + transaction <= eeprom.len(),
        data.subrange(0, transaction as int) == eeprom.subrange(2 * ((address + done) / 2), 2 * ((address + done) / 2) + transaction),
    ensures
        ({
            let start = ((address + done) % 2) as usize;
            let count = chunk_len(start, transaction, remain);
            &&& data.subrange(start as int, start + count) == eeprom.subrange(address + done, address + done + count)
            &&& count < remain ==> (address + done + count) % 2 == 0
        }),
{
    let word = 2 * ((address + done) / 2);
    let start = ((address + done) % 2) as usize;
    let count = chunk_len(start, transaction, remain);
    assert(address + done == word + start);
    assert(start < transaction);
    assert(count <= transaction - start);
    assert(start + count <= data.len());
    assert(address + done + count <= eeprom.len());
    let a = data.subrange(start as int, start + count);
    let b = eeprom.subrange(address + done, address + done + count);
    assert forall|k: int| 0 <= k < count implies #[trigger] a[k] == b[k] by {
        assert(data.subrange(0, transaction as int)[start + k] == data[start + k]);
        assert(eeprom.subrange(word, word + transaction)[start + k] == eeprom[word + start + k]);
    }
    assert(a =~= b);
}

} // verus!
