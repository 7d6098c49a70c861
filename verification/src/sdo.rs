//! addressing of the SDOs (Service Data Objects) of a slave's dictionnary, and the standard SDOs configuring its PDOs and sync channels
use vstd::prelude::*;
use vstd::arithmetic::power2::*;
use vstd::arithmetic::power2::{lemma2_to64, lemma2_to64_rest};
use core::marker::PhantomData;
use vstd::std_specs::convert::FromSpec;
use vstd::std_specs::convert::FromSpecImpl;
use crate::data::{
    PduData, Storage, TypeId, Endianness, PackingError, PackingResult, Field, BitField, bit,
    bits_pack_result, bits_unpack_result, bits_pack_slice_result, bits_unpack_slice_result,
    pack_bits, unpack_bits,
};
use crate::registers::{SyncDirection, SyncManagerChannel, SYNC_MANAGER_CHANNEL_SIZE, sync_manager_interface};
use crate::numbers::{le_bytes, le_value};

verus! {

/// specifies which part of an SDO is addressed
#[derive(Copy, Clone, Debug, PartialEq, Eq, Structural)]
pub enum SdoPart {
    /// the whole SDO (the complete struct with its eventual paddings)
    Complete,
    /// one subitem value in the SDO
    Sub(u8),
}

impl SdoPart {
    /// return the subindex or 0 for a complete item
    pub fn unwrap(self) -> (r: u8)
        ensures
            r == match self {
                SdoPart::Complete => 0,
                SdoPart::Sub(i) => i,
            },
    {
        match self {
            SdoPart::Complete => 0,
            SdoPart::Sub(i) => i,
        }
    }

    /// true if this SDO sdo address refers to a complete SDO, false if it refers to a subitem
    pub fn is_complete(&self) -> (r: bool)
        ensures
            r == (*self is Complete),
    {
        match self {
            SdoPart::Complete => true,
            _ => false,
        }
    }
}

/// address of an SDO's subitem, not a SDO itself
pub struct Sdo<T: PduData = ()> {
    /// index of the item in the slave's dictionnary of objects
    pub index: u16,
    /// subindex in the item
    pub sub: SdoPart,
    /// field pointing to the subitem in the byte sequence of the complete SDO
    pub field: BitField<T>,
}

impl<T: PduData> Clone for Sdo<T> {
    fn clone(&self) -> (r: Self)
        ensures
            r.index == self.index,
            r.sub == self.sub,
            r.field.offset == self.field.offset,
            r.field.len == self.field.len,
            r.field.endian == self.field.endian,
    {
        Sdo { index: self.index, sub: self.sub, field: BitField::new_full(self.field.offset, self.field.len, self.field.endian) }
    }
}

impl<T: PduData> Sdo<T> {
    /// address an sdo subitem, deducing its bit size from the `PduData` impl
    /// offset is the bit offset of the subitem in the complete sdo
    pub fn sub(index: u16, sub: u8, offset: usize) -> (r: Self)
        requires
            T::Packed::spec_len() * 8 <= usize::MAX,
        ensures
            r.index == index,
            r.sub == SdoPart::Sub(sub),
            r.field.offset == offset,
            r.field.len == T::Packed::spec_len() * 8,
            r.field.endian == Endianness::Little,
    {
        Sdo { index, sub: SdoPart::Sub(sub), field: BitField::new(offset, T::packed_bitsize()) }
    }

    /// address an sdo subitem of the given bit size at the given bit offset in the complete sdo
    pub fn sub_with_size(index: u16, sub: u8, offset: usize, size: usize) -> (r: Self)
        ensures
            r.index == index,
            r.sub == SdoPart::Sub(sub),
            r.field.offset == offset,
            r.field.len == size,
            r.field.endian == Endianness::Little,
    {
        Sdo { index, sub: SdoPart::Sub(sub), field: BitField::new(offset, size) }
    }

    /// address a complete sdo at the given index, with `sub=0` and `byte=0`
    pub fn complete(index: u16) -> (r: Self)
        requires
            T::Packed::spec_len() * 8 <= usize::MAX,
        ensures
            r.index == index,
            r.sub == SdoPart::Complete,
            r.field.offset == 0,
            r.field.len == T::Packed::spec_len() * 8,
            r.field.endian == Endianness::Little,
    {
        Sdo { index, sub: SdoPart::Complete, field: BitField::new(0, T::packed_bitsize()) }
    }

    /// address a complete sdo of the given bit size at the given index
    pub fn complete_with_size(index: u16, size: usize) -> (r: Self)
        ensures
            r.index == index,
            r.sub == SdoPart::Complete,
            r.field.offset == 0,
            r.field.len == size,
            r.field.endian == Endianness::Little,
    {
        Sdo { index, sub: SdoPart::Complete, field: BitField::new(0, size) }
    }

    /// the same address, with no type of value
    pub fn downcast(self) -> (r: Sdo)
        ensures
            r.index == self.index,
            r.sub == self.sub,
            r.field.offset == self.field.offset,
            r.field.len == self.field.len,
            r.field.endian == Endianness::Little,
    {
        Sdo { index: self.index, sub: self.sub, field: BitField::new(self.field.offset, self.field.len) }
    }

    /// the same address, a complete sdo being addressed as its subitem 0
    pub fn into_sub(&self) -> (r: Sdo<T>)
        ensures
            r.index == self.index,
            r.sub == match self.sub {
                SdoPart::Complete => SdoPart::Sub(0),
                SdoPart::Sub(i) => SdoPart::Sub(i),
            },
            r.field.offset == self.field.offset,
            r.field.len == self.field.len,
            r.field.endian == self.field.endian,
    {
        match self.sub {
            SdoPart::Complete => Sdo { index: self.index, sub: SdoPart::Sub(0), field: self.field.clone() },
            SdoPart::Sub(_) => self.clone(),
        }
    }
}

/// SDO behaving like a list
pub struct SdoList<T> {
    /// index of the SDO to be considered as a list
    pub index: u16,
    /// capacity of the list: max number of elements
    pub capacity: u8,
    /// type of the elements
    pub data: PhantomData<T>,
}

impl<T: PduData> SdoList<T> {
    /// a list of the maximum capacity
    pub fn new(index: u16) -> (r: Self)
        ensures
            r.index == index,
            r.capacity == 254,
    {
        SdoList { index, capacity: 254, data: PhantomData }
    }

    /// a list of the given capacity, which cannot exceed 254
    pub fn with_capacity(index: u16, capacity: u8) -> (r: Self)
        requires
            capacity <= 254,
        ensures
            r.index == index,
            r.capacity == capacity,
    {
        SdoList { index, capacity, data: PhantomData }
    }

    /// sdo subitem giving the current length of the list
    pub fn len(&self) -> (r: Sdo<u8>)
        ensures
            r.index == self.index,
            r.sub == SdoPart::Sub(0),
            r.field.offset == 0,
            r.field.len == 8,
    {
        Sdo::sub(self.index, 0, 0)
    }

    /// sdo subitem of a list item: the items follow the length byte, each of the packed size of an item
    pub fn item(&self, sub: usize) -> (r: Sdo<T>)
        requires
            sub < self.capacity,
            T::Packed::spec_len() * sub + 1 <= usize::MAX,
            T::Packed::spec_len() * 8 <= usize::MAX,
        ensures
            r.index == self.index,
            r.sub == SdoPart::Sub((sub + 1) as u8),
            r.field.offset == 1 + T::Packed::spec_len() * sub,
            r.field.len == T::Packed::spec_len() * 8,
    {
        let size = T::packed_size();
        proof {
            vstd::arithmetic::mul::lemma_mul_is_commutative(size as int, sub as int);
        }
        Sdo::sub(self.index, (sub + 1) as u8, 1 + size * sub)
    }
}

impl<T> Clone for SdoList<T> {
    fn clone(&self) -> (r: Self)
        ensures
            r.index == self.index,
            r.capacity == self.capacity,
    {
        SdoList { index: self.index, capacity: self.capacity, data: PhantomData }
    }
}

impl<T> Copy for SdoList<T> {
}

impl<T: PduData> From<u16> for SdoList<T> {
    fn from(index: u16) -> (r: Self) {
        SdoList { index, capacity: 254, data: PhantomData }
    }
}

impl<T: PduData> FromSpecImpl<u16> for SdoList<T> {
    open spec fn obeys_from_spec() -> bool {
        true
    }

    open spec fn from_spec(index: u16) -> Self {
        SdoList { index, capacity: 254, data: PhantomData }
    }
}

/// a serie of SDOs at consecutive indices, each described by a `T` built from its index
pub struct SdoSerie<T> {
    /// index of the first SDO of the serie
    pub index: u16,
    /// number of SDOs in the serie
    pub len: u16,
    /// type describing each SDO
    pub data: PhantomData<T>,
}

impl<T: From<u16>> SdoSerie<T> {
    /// a serie of `len` SDOs starting at `index`
    pub fn new(index: u16, len: u16) -> (r: Self)
        ensures
            r.index == index,
            r.len == len,
    {
        SdoSerie { index, len, data: PhantomData }
    }

    /// the description of the SDO at position `i` in the serie
    pub fn slot(&self, i: u16) -> (r: T)
        requires
            i < self.len,
            self.index + i <= u16::MAX,
        ensures
            T::obeys_from_spec() ==> r == T::from_spec((self.index + i) as u16),
    {
        T::from(self.index + i)
    }
}

impl<T> Clone for SdoSerie<T> {
    fn clone(&self) -> (r: Self)
        ensures
            r.index == self.index,
            r.len == self.len,
    {
        SdoSerie { index: self.index, len: self.len, data: PhantomData }
    }
}

impl<T> Copy for SdoSerie<T> {
}

/// description of SDO configuring a PDO
/// the SDO is assumed to follow the cia402 specifications for PDO SDOs
#[derive(Copy, Clone, Debug, PartialEq, Eq, Structural)]
pub struct Pdo {
    /// index of the SDO to be considered as a list
    pub index: u16,
    /// true if the SDO entries on the slave shall not be changed
    pub fixed: bool,
    /// capacity of the list: max number of elements
    pub capacity: u8,
}

impl Pdo {
    /// a PDO of maximum capacity
    pub fn new(index: u16, fixed: bool) -> (r: Self)
        ensures
            r == (Pdo { index, fixed, capacity: 254 }),
    {
        Pdo { index, fixed, capacity: 254 }
    }

    /// a PDO of the given capacity, which cannot exceed 254
    pub fn with_capacity(index: u16, fixed: bool, capacity: u8) -> (r: Self)
        requires
            capacity <= 254,
        ensures
            r == (Pdo { index, fixed, capacity }),
    {
        Pdo { index, fixed, capacity }
    }

    /// sdo subitem giving the current length of the list
    pub fn len(&self) -> (r: Sdo<u8>)
        ensures
            r.index == self.index,
            r.sub == SdoPart::Sub(0),
            r.field.offset == 0,
            r.field.len == 8,
    {
        SdoList::<PdoEntry>::with_capacity(self.index, if self.capacity <= 254 { self.capacity } else { 254 }).len()
    }

    /// sdo subitem of a list item
    pub fn item(&self, sub: usize) -> (r: Sdo<PdoEntry>)
        requires
            sub < self.capacity,
            self.capacity <= 254,
        ensures
            r.index == self.index,
            r.sub == SdoPart::Sub((sub + 1) as u8),
            r.field.offset == 1 + 4 * sub,
            r.field.len == 32,
    {
        SdoList::<PdoEntry>::with_capacity(self.index, self.capacity).item(sub)
    }
}

/// content of a subitem in an SDO for PDO mapping
#[derive(Copy, Clone, Debug, PartialEq, Eq, Structural)]
pub struct PdoEntry {
    /// bit size of the subitem value
    pub bitsize: u8,
    /// mapped sdo subindex (it is not possible to map complete sdo, so this field must always be set)
    pub sub: u8,
    /// mapped sdo index
    pub index: u16,
}

impl PdoEntry {
    /// the bits of the struct read as an integer, each field truncated to its width
    pub open spec fn raw(&self) -> nat {
        (self.bitsize as nat % 0x100)
            + (self.sub as nat % 0x100) * 0x100
            + (self.index as nat % 0x10000) * 0x10000
    }

    /// every field fits in its width
    pub open spec fn wf(&self) -> bool {
        true
    }

    /// the struct whose bits read as the integer `raw`
    pub open spec fn from_raw(raw: nat) -> Self {
        PdoEntry {
            bitsize: (raw % 0x100) as u8,
            sub: (raw / 0x100 % 0x100) as u8,
            index: (raw / 0x10000 % 0x10000) as u16,
        }
    }

    /// the bits of the struct read as an integer, each field truncated to its width
    pub fn to_bits(&self) -> (r: u64)
        ensures
            r == self.raw(),
    {
        (self.bitsize as u64 % 0x100)
            + (self.sub as u64 % 0x100) * 0x100
            + (self.index as u64 % 0x10000) * 0x10000
    }

    /// the struct whose bits read as the integer `raw`
    pub fn from_bits(raw: u64) -> (r: Self)
        requires
            raw < 0x100000000,
        ensures
            r == Self::from_raw(raw as nat),
            r.wf(),
    {
        PdoEntry {
            bitsize: (raw % 0x100) as u8,
            sub: (raw / 0x100 % 0x100) as u8,
            index: (raw / 0x10000 % 0x10000) as u16,
        }
    }
}

impl PduData for PdoEntry {
    const ID: TypeId = TypeId::CUSTOM;
    type Packed = [u8; 4];

    open spec fn pack_defined(len: nat, bitoffset: u8, bitsize: usize, bitordering: Endianness) -> bool {
        true
    }

    open spec fn spec_pack_slice(
        &self,
        data: Seq<u8>,
        bitoffset: u8,
        bitsize: usize,
        bitordering: Endianness,
    ) -> PackingResult<Seq<u8>> {
        bits_pack_slice_result(self.raw(), 4, data, bitoffset, bitsize)
    }

    open spec fn unpack_defined(len: nat, bitoffset: u8, bitsize: usize, bitordering: Endianness) -> bool {
        true
    }

    open spec fn spec_unpack_slice(
        src: Seq<u8>,
        bitoffset: u8,
        bitsize: usize,
        bitordering: Endianness,
    ) -> PackingResult<Self> {
        match bits_unpack_slice_result(src, 4, bitoffset, bitsize) {
            Ok(v) => Ok(Self::from_raw(v)),
            Err(e) => Err(e),
        }
    }

    open spec fn pack_whole_defined(len: nat) -> bool {
        true
    }

    open spec fn spec_pack(&self, data: Seq<u8>) -> PackingResult<Seq<u8>> {
        bits_pack_result(self.raw(), 4, data)
    }

    open spec fn unpack_whole_defined(len: nat) -> bool {
        true
    }

    open spec fn spec_unpack(src: Seq<u8>) -> PackingResult<Self> {
        match bits_unpack_result(src, 4) {
            Ok(v) => Ok(Self::from_raw(v)),
            Err(e) => Err(e),
        }
    }

    fn pack(&self, data: &mut [u8]) -> (r: PackingResult<()>) {
        proof {
            lemma2_to64();
        }
        pack_bits(self.to_bits(), 4, data)
    }

    fn unpack(src: &[u8]) -> (r: PackingResult<Self>) {
        proof {
            lemma2_to64();
            lemma2_to64_rest();
        }
        match unpack_bits(src, 4) {
            Ok(v) => Ok(Self::from_bits(v)),
            Err(e) => Err(e),
        }
    }

    fn pack_slice(
        &self,
        data: &mut [u8],
        bitoffset: u8,
        bitsize: usize,
        bitordering: Endianness,
    ) -> (r: PackingResult<()>) {
        if bitoffset != 0 {
            return Err(PackingError::BadAlignment(bitoffset as usize, "Bit offset must be at 0 on this implementation"));
        }
        if bitsize != 0 {
            return Err(PackingError::BadSize(bitsize, "Bit size must be at 0 on this implementation"));
        }
        self.pack(data)
    }

    fn unpack_slice(src: &[u8], bitoffset: u8, bitsize: usize, bitordering: Endianness) -> (r: PackingResult<Self>) {
        if bitoffset != 0 {
            return Err(PackingError::BadAlignment(bitoffset as usize, "Bit offset must be at 0 on this implementation"));
        }
        if bitsize != 0 {
            return Err(PackingError::BadSize(bitsize, "Bit size must be at 0 on this implementation"));
        }
        Self::unpack(src)
    }
}

/// The bits of a [PdoEntry] whose fields fit in their widths, read back as a struct, give the
/// same struct; and any integer of its width, turned into a struct and back, is unchanged.
pub proof fn law_pdo_entry_bits_roundtrip(h: PdoEntry, raw: nat)
    ensures
        h.wf() ==> PdoEntry::from_raw(h.raw()) == h,
        raw < 0x100000000 ==> PdoEntry::from_raw(raw).raw() == raw,
{
    let x_bitsize: u64 = (h.bitsize as u64);
    let x_sub: u64 = (h.sub as u64);
    let x_index: u64 = (h.index as u64);
    let v: u64 = (x_bitsize + x_sub * 0x100 + x_index * 0x10000) as u64;
    let r: u64 = raw as u64;
    assert({
        &&& !(v == x_bitsize + x_sub * 0x100 + x_index * 0x10000 && x_bitsize < 0x100 && x_sub < 0x100 && x_index < 0x10000) || (v % 0x100 == x_bitsize && v / 0x100 % 0x100 == x_sub && v / 0x10000 % 0x10000 == x_index)
        &&& !(r < 0x100000000) || ((r % 0x100) + (r / 0x100 % 0x100) * 0x100 + (r / 0x10000 % 0x10000) * 0x10000 == r)
    }) by (bit_vector);
    if h.wf() {
        assert(h.raw() == x_bitsize + x_sub * 0x100 + x_index * 0x10000);
    }
}
/// ETG.1000.6 table 76: use of a sync channel
#[derive(Copy, Clone, Debug, PartialEq, Eq, Structural)]
pub enum SyncChannelMode {
    Disable,
    MailboxReceive,
    MailboxSend,
    ProcessDataOutput,
    ProcessDataInput,
}

/// code of a [SyncChannelMode] on the wire
pub open spec fn sync_channel_mode_code(v: SyncChannelMode) -> u8 {
    match v {
        SyncChannelMode::Disable => 0,
        SyncChannelMode::MailboxReceive => 1,
        SyncChannelMode::MailboxSend => 2,
        SyncChannelMode::ProcessDataOutput => 3,
        SyncChannelMode::ProcessDataInput => 4,
    }
}

/// the [SyncChannelMode] of a code on the wire, if any
pub open spec fn sync_channel_mode_of_code(code: u8) -> Option<SyncChannelMode> {
    match code {
        0 => Some(SyncChannelMode::Disable),
        1 => Some(SyncChannelMode::MailboxReceive),
        2 => Some(SyncChannelMode::MailboxSend),
        3 => Some(SyncChannelMode::ProcessDataOutput),
        4 => Some(SyncChannelMode::ProcessDataInput),
        _ => None,
    }
}

impl SyncChannelMode {
    /// code on the wire
    pub fn code(self) -> (r: u8)
        ensures
            r == sync_channel_mode_code(self),
    {
        match self {
            SyncChannelMode::Disable => 0,
            SyncChannelMode::MailboxReceive => 1,
            SyncChannelMode::MailboxSend => 2,
            SyncChannelMode::ProcessDataOutput => 3,
            SyncChannelMode::ProcessDataInput => 4,
        }
    }

    /// the variant of a code on the wire, if any
    pub fn from_code(code: u8) -> (r: Option<Self>)
        ensures
            r == sync_channel_mode_of_code(code),
    {
        match code {
            0 => Some(SyncChannelMode::Disable),
            1 => Some(SyncChannelMode::MailboxReceive),
            2 => Some(SyncChannelMode::MailboxSend),
            3 => Some(SyncChannelMode::ProcessDataOutput),
            4 => Some(SyncChannelMode::ProcessDataInput),
            _ => None,
        }
    }
}

/// Decoding the code of a [SyncChannelMode] gives back the same variant.
pub proof fn law_sync_channel_mode_code_roundtrip(v: SyncChannelMode)
    ensures
        sync_channel_mode_of_code(sync_channel_mode_code(v)) == Some(v),
{
}
/**
    possible mode of synchronization

    ETG 1020 table 86 and 87 - `0x1C32` or `0x1C33`
    the definition from ETG.1000.6 table 78 is outdated by ETG.1020 and do not apply here.
*/
#[derive(Copy, Clone, Debug, PartialEq, Eq, Structural)]
pub enum SyncMode {
    FreeRun,
    SM3Sync,
    DCSync0,
    DCSync1,
    SM2Sync,
}

/// code of a [SyncMode] on the wire
pub open spec fn sync_mode_code(v: SyncMode) -> u16 {
    match v {
        SyncMode::FreeRun => 0x0,
        SyncMode::SM3Sync => 0x1,
        SyncMode::DCSync0 => 0x2,
        SyncMode::DCSync1 => 0x3,
        SyncMode::SM2Sync => 0x22,
    }
}

/// the [SyncMode] of a code on the wire, if any
pub open spec fn sync_mode_of_code(code: u16) -> Option<SyncMode> {
    match code {
        0x0 => Some(SyncMode::FreeRun),
        0x1 => Some(SyncMode::SM3Sync),
        0x2 => Some(SyncMode::DCSync0),
        0x3 => Some(SyncMode::DCSync1),
        0x22 => Some(SyncMode::SM2Sync),
        _ => None,
    }
}

impl SyncMode {
    /// code on the wire
    pub fn code(self) -> (r: u16)
        ensures
            r == sync_mode_code(self),
    {
        match self {
            SyncMode::FreeRun => 0x0,
            SyncMode::SM3Sync => 0x1,
            SyncMode::DCSync0 => 0x2,
            SyncMode::DCSync1 => 0x3,
            SyncMode::SM2Sync => 0x22,
        }
    }

    /// the variant of a code on the wire, if any
    pub fn from_code(code: u16) -> (r: Option<Self>)
        ensures
            r == sync_mode_of_code(code),
    {
        match code {
            0x0 => Some(SyncMode::FreeRun),
            0x1 => Some(SyncMode::SM3Sync),
            0x2 => Some(SyncMode::DCSync0),
            0x3 => Some(SyncMode::DCSync1),
            0x22 => Some(SyncMode::SM2Sync),
            _ => None,
        }
    }
}

/// Decoding the code of a [SyncMode] gives back the same variant.
pub proof fn law_sync_mode_code_roundtrip(v: SyncMode)
    ensures
        sync_mode_of_code(sync_mode_code(v)) == Some(v),
{
}
/// synchronization modes supported by a slave (ETG 1020 table 86)
#[derive(Copy, Clone, Debug, PartialEq, Eq, Structural)]
pub struct SyncModes {
    /// bits 0 to 0
    pub free: bool,
    /// bits 1 to 1
    pub sm: bool,
    /// bits 2 to 2
    pub dc_sync0: bool,
    /// bits 3 to 3
    pub dc_sync1: bool,
    /// bits 4 to 4
    pub dc_fixed: bool,
    /// bits 5 to 5
    pub shift: bool,
    /// bits 6 to 6
    pub shift_local_time: bool,
    /// reserved bits
    pub reserved0: u8,
    /// bits 10 to 10
    pub delay_time_compute: bool,
    /// bits 11 to 11
    pub delay_time_fixed: bool,
    /// reserved bits
    pub reserved1: u8,
    /// times described in 0x1C32 are variable (depend on the actual configuration), the slave supports cycle time measurement in OP state
    pub dynamic_cycle_time: bool,
    /// reserved bit
    pub reserved2: bool,
}

impl SyncModes {
    /// the bits of the struct read as an integer, each field truncated to its width
    pub open spec fn raw(&self) -> nat {
        (if self.free { 1nat } else { 0nat })
            + (if self.sm { 1nat } else { 0nat }) * 0x2
            + (if self.dc_sync0 { 1nat } else { 0nat }) * 0x4
            + (if self.dc_sync1 { 1nat } else { 0nat }) * 0x8
            + (if self.dc_fixed { 1nat } else { 0nat }) * 0x10
            + (if self.shift { 1nat } else { 0nat }) * 0x20
            + (if self.shift_local_time { 1nat } else { 0nat }) * 0x40
            + (self.reserved0 as nat % 0x8) * 0x80
            + (if self.delay_time_compute { 1nat } else { 0nat }) * 0x400
            + (if self.delay_time_fixed { 1nat } else { 0nat }) * 0x800
            + (self.reserved1 as nat % 0x4) * 0x1000
            + (if self.dynamic_cycle_time { 1nat } else { 0nat }) * 0x4000
            + (if self.reserved2 { 1nat } else { 0nat }) * 0x8000
    }

    /// every field fits in its width
    pub open spec fn wf(&self) -> bool {
        self.reserved0 < 0x8
        && self.reserved1 < 0x4
    }

    /// the struct whose bits read as the integer `raw`
    pub open spec fn from_raw(raw: nat) -> Self {
        SyncModes {
            free: (raw % 0x2) == 1,
            sm: (raw / 0x2 % 0x2) == 1,
            dc_sync0: (raw / 0x4 % 0x2) == 1,
            dc_sync1: (raw / 0x8 % 0x2) == 1,
            dc_fixed: (raw / 0x10 % 0x2) == 1,
            shift: (raw / 0x20 % 0x2) == 1,
            shift_local_time: (raw / 0x40 % 0x2) == 1,
            reserved0: (raw / 0x80 % 0x8) as u8,
            delay_time_compute: (raw / 0x400 % 0x2) == 1,
            delay_time_fixed: (raw / 0x800 % 0x2) == 1,
            reserved1: (raw / 0x1000 % 0x4) as u8,
            dynamic_cycle_time: (raw / 0x4000 % 0x2) == 1,
            reserved2: (raw / 0x8000 % 0x2) == 1,
        }
    }

    /// the bits of the struct read as an integer, each field truncated to its width
    #[verifier::rlimit(100)]
    #[verifier::spinoff_prover]
    pub fn to_bits(&self) -> (r: u64)
        ensures
            r == self.raw(),
    {
        let x_free: u64 = if self.free { 1u64 } else { 0u64 };
        let x_sm: u64 = if self.sm { 1u64 } else { 0u64 };
        let x_dc_sync0: u64 = if self.dc_sync0 { 1u64 } else { 0u64 };
        let x_dc_sync1: u64 = if self.dc_sync1 { 1u64 } else { 0u64 };
        let x_dc_fixed: u64 = if self.dc_fixed { 1u64 } else { 0u64 };
        let x_shift: u64 = if self.shift { 1u64 } else { 0u64 };
        let x_shift_local_time: u64 = if self.shift_local_time { 1u64 } else { 0u64 };
        let x_reserved0: u64 = self.reserved0 as u64 % 0x8;
        let x_delay_time_compute: u64 = if self.delay_time_compute { 1u64 } else { 0u64 };
        let x_delay_time_fixed: u64 = if self.delay_time_fixed { 1u64 } else { 0u64 };
        let x_reserved1: u64 = self.reserved1 as u64 % 0x4;
        let x_dynamic_cycle_time: u64 = if self.dynamic_cycle_time { 1u64 } else { 0u64 };
        let x_reserved2: u64 = if self.reserved2 { 1u64 } else { 0u64 };
        let r: u64 = x_free | (x_sm << 1u64) | (x_dc_sync0 << 2u64) | (x_dc_sync1 << 3u64) | (x_dc_fixed << 4u64) | (x_shift << 5u64) | (x_shift_local_time << 6u64) | (x_reserved0 << 7u64) | (x_delay_time_compute << 10u64) | (x_delay_time_fixed << 11u64) | (x_reserved1 << 12u64) | (x_dynamic_cycle_time << 14u64) | (x_reserved2 << 15u64);
        assert(r == x_free + x_sm * 0x2 + x_dc_sync0 * 0x4 + x_dc_sync1 * 0x8 + x_dc_fixed * 0x10 + x_shift * 0x20 + x_shift_local_time * 0x40 + x_reserved0 * 0x80 + x_delay_time_compute * 0x400 + x_delay_time_fixed * 0x800 + x_reserved1 * 0x1000 + x_dynamic_cycle_time * 0x4000 + x_reserved2 * 0x8000) by (bit_vector)
            requires
                r == x_free | (x_sm << 1u64) | (x_dc_sync0 << 2u64) | (x_dc_sync1 << 3u64) | (x_dc_fixed << 4u64) | (x_shift << 5u64) | (x_shift_local_time << 6u64) | (x_reserved0 << 7u64) | (x_delay_time_compute << 10u64) | (x_delay_time_fixed << 11u64) | (x_reserved1 << 12u64) | (x_dynamic_cycle_time << 14u64) | (x_reserved2 << 15u64),
                x_free < 0x2,
                x_sm < 0x2,
                x_dc_sync0 < 0x2,
                x_dc_sync1 < 0x2,
                x_dc_fixed < 0x2,
                x_shift < 0x2,
                x_shift_local_time < 0x2,
                x_reserved0 < 0x8,
                x_delay_time_compute < 0x2,
                x_delay_time_fixed < 0x2,
                x_reserved1 < 0x4,
                x_dynamic_cycle_time < 0x2,
                x_reserved2 < 0x2,
        ;
        r
    }

    /// the struct whose bits read as the integer `raw`
    pub fn from_bits(raw: u64) -> (r: Self)
        requires
            raw < 0x10000,
        ensures
            r == Self::from_raw(raw as nat),
            r.wf(),
    {
        SyncModes {
            free: (raw % 0x2) == 1,
            sm: (raw / 0x2 % 0x2) == 1,
            dc_sync0: (raw / 0x4 % 0x2) == 1,
            dc_sync1: (raw / 0x8 % 0x2) == 1,
            dc_fixed: (raw / 0x10 % 0x2) == 1,
            shift: (raw / 0x20 % 0x2) == 1,
            shift_local_time: (raw / 0x40 % 0x2) == 1,
            reserved0: (raw / 0x80 % 0x8) as u8,
            delay_time_compute: (raw / 0x400 % 0x2) == 1,
            delay_time_fixed: (raw / 0x800 % 0x2) == 1,
            reserved1: (raw / 0x1000 % 0x4) as u8,
            dynamic_cycle_time: (raw / 0x4000 % 0x2) == 1,
            reserved2: (raw / 0x8000 % 0x2) == 1,
        }
    }
}

impl PduData for SyncModes {
    const ID: TypeId = TypeId::CUSTOM;
    type Packed = [u8; 2];

    open spec fn pack_defined(len: nat, bitoffset: u8, bitsize: usize, bitordering: Endianness) -> bool {
        true
    }

    open spec fn spec_pack_slice(
        &self,
        data: Seq<u8>,
        bitoffset: u8,
        bitsize: usize,
        bitordering: Endianness,
    ) -> PackingResult<Seq<u8>> {
        bits_pack_slice_result(self.raw(), 2, data, bitoffset, bitsize)
    }

    open spec fn unpack_defined(len: nat, bitoffset: u8, bitsize: usize, bitordering: Endianness) -> bool {
        true
    }

    open spec fn spec_unpack_slice(
        src: Seq<u8>,
        bitoffset: u8,
        bitsize: usize,
        bitordering: Endianness,
    ) -> PackingResult<Self> {
        match bits_unpack_slice_result(src, 2, bitoffset, bitsize) {
            Ok(v) => Ok(Self::from_raw(v)),
            Err(e) => Err(e),
        }
    }

    open spec fn pack_whole_defined(len: nat) -> bool {
        true
    }

    open spec fn spec_pack(&self, data: Seq<u8>) -> PackingResult<Seq<u8>> {
        bits_pack_result(self.raw(), 2, data)
    }

    open spec fn unpack_whole_defined(len: nat) -> bool {
        true
    }

    open spec fn spec_unpack(src: Seq<u8>) -> PackingResult<Self> {
        match bits_unpack_result(src, 2) {
            Ok(v) => Ok(Self::from_raw(v)),
            Err(e) => Err(e),
        }
    }

    fn pack(&self, data: &mut [u8]) -> (r: PackingResult<()>) {
        proof {
            lemma2_to64();
        }
        pack_bits(self.to_bits(), 2, data)
    }

    fn unpack(src: &[u8]) -> (r: PackingResult<Self>) {
        proof {
            lemma2_to64();
            lemma2_to64_rest();
        }
        match unpack_bits(src, 2) {
            Ok(v) => Ok(Self::from_bits(v)),
            Err(e) => Err(e),
        }
    }

    fn pack_slice(
        &self,
        data: &mut [u8],
        bitoffset: u8,
        bitsize: usize,
        bitordering: Endianness,
    ) -> (r: PackingResult<()>) {
        if bitoffset != 0 {
            return Err(PackingError::BadAlignment(bitoffset as usize, "Bit offset must be at 0 on this implementation"));
        }
        if bitsize != 0 {
            return Err(PackingError::BadSize(bitsize, "Bit size must be at 0 on this implementation"));
        }
        self.pack(data)
    }

    fn unpack_slice(src: &[u8], bitoffset: u8, bitsize: usize, bitordering: Endianness) -> (r: PackingResult<Self>) {
        if bitoffset != 0 {
            return Err(PackingError::BadAlignment(bitoffset as usize, "Bit offset must be at 0 on this implementation"));
        }
        if bitsize != 0 {
            return Err(PackingError::BadSize(bitsize, "Bit size must be at 0 on this implementation"));
        }
        Self::unpack(src)
    }
}
/// control of the local cycle time measurement
#[derive(Copy, Clone, Debug, PartialEq, Eq, Structural)]
pub struct SyncCycleControl {
    /// measurement of local cycle time started (if written again, the measured values are reset)
    pub measure_local_time: bool,
    /// reset the event counters
    pub reset_event_counter: bool,
    /// reserved bits
    pub reserved: u16,
}

impl SyncCycleControl {
    /// the bits of the struct read as an integer, each field truncated to its width
    pub open spec fn raw(&self) -> nat {
        (if self.measure_local_time { 1nat } else { 0nat })
            + (if self.reset_event_counter { 1nat } else { 0nat }) * 0x2
            + (self.reserved as nat % 0x4000) * 0x4
    }

    /// every field fits in its width
    pub open spec fn wf(&self) -> bool {
        self.reserved < 0x4000
    }

    /// the struct whose bits read as the integer `raw`
    pub open spec fn from_raw(raw: nat) -> Self {
        SyncCycleControl {
            measure_local_time: (raw % 0x2) == 1,
            reset_event_counter: (raw / 0x2 % 0x2) == 1,
            reserved: (raw / 0x4 % 0x4000) as u16,
        }
    }

    /// the bits of the struct read as an integer, each field truncated to its width
    pub fn to_bits(&self) -> (r: u64)
        ensures
            r == self.raw(),
    {
        (if self.measure_local_time { 1u64 } else { 0u64 })
            + (if self.reset_event_counter { 1u64 } else { 0u64 }) * 0x2
            + (self.reserved as u64 % 0x4000) * 0x4
    }

    /// the struct whose bits read as the integer `raw`
    pub fn from_bits(raw: u64) -> (r: Self)
        requires
            raw < 0x10000,
        ensures
            r == Self::from_raw(raw as nat),
            r.wf(),
    {
        SyncCycleControl {
            measure_local_time: (raw % 0x2) == 1,
            reset_event_counter: (raw / 0x2 % 0x2) == 1,
            reserved: (raw / 0x4 % 0x4000) as u16,
        }
    }
}

impl PduData for SyncCycleControl {
    const ID: TypeId = TypeId::CUSTOM;
    type Packed = [u8; 2];

    open spec fn pack_defined(len: nat, bitoffset: u8, bitsize: usize, bitordering: Endianness) -> bool {
        true
    }

    open spec fn spec_pack_slice(
        &self,
        data: Seq<u8>,
        bitoffset: u8,
        bitsize: usize,
        bitordering: Endianness,
    ) -> PackingResult<Seq<u8>> {
        bits_pack_slice_result(self.raw(), 2, data, bitoffset, bitsize)
    }

    open spec fn unpack_defined(len: nat, bitoffset: u8, bitsize: usize, bitordering: Endianness) -> bool {
        true
    }

    open spec fn spec_unpack_slice(
        src: Seq<u8>,
        bitoffset: u8,
        bitsize: usize,
        bitordering: Endianness,
    ) -> PackingResult<Self> {
        match bits_unpack_slice_result(src, 2, bitoffset, bitsize) {
            Ok(v) => Ok(Self::from_raw(v)),
            Err(e) => Err(e),
        }
    }

    open spec fn pack_whole_defined(len: nat) -> bool {
        true
    }

    open spec fn spec_pack(&self, data: Seq<u8>) -> PackingResult<Seq<u8>> {
        bits_pack_result(self.raw(), 2, data)
    }

    open spec fn unpack_whole_defined(len: nat) -> bool {
        true
    }

    open spec fn spec_unpack(src: Seq<u8>) -> PackingResult<Self> {
        match bits_unpack_result(src, 2) {
            Ok(v) => Ok(Self::from_raw(v)),
            Err(e) => Err(e),
        }
    }

    fn pack(&self, data: &mut [u8]) -> (r: PackingResult<()>) {
        proof {
            lemma2_to64();
        }
        pack_bits(self.to_bits(), 2, data)
    }

    fn unpack(src: &[u8]) -> (r: PackingResult<Self>) {
        proof {
            lemma2_to64();
            lemma2_to64_rest();
        }
        match unpack_bits(src, 2) {
            Ok(v) => Ok(Self::from_bits(v)),
            Err(e) => Err(e),
        }
    }

    fn pack_slice(
        &self,
        data: &mut [u8],
        bitoffset: u8,
        bitsize: usize,
        bitordering: Endianness,
    ) -> (r: PackingResult<()>) {
        if bitoffset != 0 {
            return Err(PackingError::BadAlignment(bitoffset as usize, "Bit offset must be at 0 on this implementation"));
        }
        if bitsize != 0 {
            return Err(PackingError::BadSize(bitsize, "Bit size must be at 0 on this implementation"));
        }
        self.pack(data)
    }

    fn unpack_slice(src: &[u8], bitoffset: u8, bitsize: usize, bitordering: Endianness) -> (r: PackingResult<Self>) {
        if bitoffset != 0 {
            return Err(PackingError::BadAlignment(bitoffset as usize, "Bit offset must be at 0 on this implementation"));
        }
        if bitsize != 0 {
            return Err(PackingError::BadSize(bitsize, "Bit size must be at 0 on this implementation"));
        }
        Self::unpack(src)
    }
}

/// The bits of a [SyncCycleControl] whose fields fit in their widths, read back as a struct, give the
/// same struct; and any integer of its width, turned into a struct and back, is unchanged.
pub proof fn law_sync_cycle_control_bits_roundtrip(h: SyncCycleControl, raw: nat)
    ensures
        h.wf() ==> SyncCycleControl::from_raw(h.raw()) == h,
        raw < 0x10000 ==> SyncCycleControl::from_raw(raw).raw() == raw,
{
    let x_measure_local_time: u64 = (if h.measure_local_time { 1u64 } else { 0u64 });
    let x_reset_event_counter: u64 = (if h.reset_event_counter { 1u64 } else { 0u64 });
    let x_reserved: u64 = (h.reserved as u64);
    let v: u64 = (x_measure_local_time + x_reset_event_counter * 0x2 + x_reserved * 0x4) as u64;
    let r: u64 = raw as u64;
    assert({
        &&& !(v == x_measure_local_time + x_reset_event_counter * 0x2 + x_reserved * 0x4 && x_measure_local_time < 0x2 && x_reset_event_counter < 0x2 && x_reserved < 0x4000) || (v % 0x2 == x_measure_local_time && v / 0x2 % 0x2 == x_reset_event_counter && v / 0x4 % 0x4000 == x_reserved)
        &&& !(r < 0x10000) || ((r % 0x2) + (r / 0x2 % 0x2) * 0x2 + (r / 0x4 % 0x4000) * 0x4 == r)
    }) by (bit_vector);
    if h.wf() {
        assert(h.raw() == x_measure_local_time + x_reset_event_counter * 0x2 + x_reserved * 0x4);
    }
}
/**
    sync manager synchronization object, complete

    ETG 1020 table 86 and 87 - `0x1C32` or `0x1C33`
*/
#[derive(Copy, Clone, Debug, PartialEq, Eq, Structural)]
pub struct SynchronizationFull {
    /// number of parameters
    pub nb_sync_params: u8,
    /// a [SyncMode] code
    pub sync_mode: u16,
    /// cycle time in ns
    pub cycle_time: u32,
    /// time between related event and the associated action (outputs valid hardware) in ns
    pub shift_time: u32,
    /// supported synchronization modes
    pub supported_sync_type: SyncModes,
    /// minimum cycle time supported by the slave in ns
    pub min_cycle_time: u32,
    /// time to copy and prepare the process data in ns
    pub calc_copy_time: u32,
    /// minimum hardware delay time of the slave in ns
    pub min_delay_time: u32,
    /// control of the local time measurement
    pub control: SyncCycleControl,
    /// hardware delay time of the slave in ns
    pub delay_time: u32,
    /// time between two Sync0 signals in ns
    pub sync0_cycle_time: u32,
    /// count of missed SM events
    pub counter_sm_missed: u16,
    /// count of cycles too short
    pub counter_cycle_missed: u16,
    /// count of shift times too short
    pub counter_shift_missed: u16,
    /// count of RxPDO toggle failures
    pub counter_toggle_failure: u16,
    /// minimum cycle distance in ns
    pub min_cycle_distance: u32,
    /// maximum cycle distance in ns
    pub max_cycle_distance: u32,
    /// minimum SM SYNC distance in ns
    pub min_sm_sync_distance: u32,
    /// maximum SM SYNC distance in ns
    pub max_sm_sync_distance: u32,
    /// reserved bytes
    pub reserved_1: u32,
    /// reserved bytes
    pub reserved_2: u64,
    /// synchronization error
    pub sync_error: bool,
}

impl SynchronizationFull {
    /// bytes of the struct on the wire
    #[verifier::opaque]
    pub open spec fn bytes(&self) -> Seq<u8> {
        seq![
            self.nb_sync_params,
            (self.sync_mode % 256) as u8,
            (self.sync_mode / 256) as u8,
            (self.cycle_time % 256) as u8,
            (self.cycle_time / 0x100 % 256) as u8,
            (self.cycle_time / 0x10000 % 256) as u8,
            (self.cycle_time / 0x1000000 % 256) as u8,
            (self.shift_time % 256) as u8,
            (self.shift_time / 0x100 % 256) as u8,
            (self.shift_time / 0x10000 % 256) as u8,
            (self.shift_time / 0x1000000 % 256) as u8,
            (self.supported_sync_type.raw() % 256) as u8,
            (self.supported_sync_type.raw() / 256 % 256) as u8,
            (self.min_cycle_time % 256) as u8,
            (self.min_cycle_time / 0x100 % 256) as u8,
            (self.min_cycle_time / 0x10000 % 256) as u8,
            (self.min_cycle_time / 0x1000000 % 256) as u8,
            (self.calc_copy_time % 256) as u8,
            (self.calc_copy_time / 0x100 % 256) as u8,
            (self.calc_copy_time / 0x10000 % 256) as u8,
            (self.calc_copy_time / 0x1000000 % 256) as u8,
            (self.min_delay_time % 256) as u8,
            (self.min_delay_time / 0x100 % 256) as u8,
            (self.min_delay_time / 0x10000 % 256) as u8,
            (self.min_delay_time / 0x1000000 % 256) as u8,
            (self.control.raw() % 256) as u8,
            (self.control.raw() / 256 % 256) as u8,
            (self.delay_time % 256) as u8,
            (self.delay_time / 0x100 % 256) as u8,
            (self.delay_time / 0x10000 % 256) as u8,
            (self.delay_time / 0x1000000 % 256) as u8,
            (self.sync0_cycle_time % 256) as u8,
            (self.sync0_cycle_time / 0x100 % 256) as u8,
            (self.sync0_cycle_time / 0x10000 % 256) as u8,
            (self.sync0_cycle_time / 0x1000000 % 256) as u8,
            (self.counter_sm_missed % 256) as u8,
            (self.counter_sm_missed / 256) as u8,
            (self.counter_cycle_missed % 256) as u8,
            (self.counter_cycle_missed / 256) as u8,
            (self.counter_shift_missed % 256) as u8,
            (self.counter_shift_missed / 256) as u8,
            (self.counter_toggle_failure % 256) as u8,
            (self.counter_toggle_failure / 256) as u8,
            (self.min_cycle_distance % 256) as u8,
            (self.min_cycle_distance / 0x100 % 256) as u8,
            (self.min_cycle_distance / 0x10000 % 256) as u8,
            (self.min_cycle_distance / 0x1000000 % 256) as u8,
            (self.max_cycle_distance % 256) as u8,
            (self.max_cycle_distance / 0x100 % 256) as u8,
            (self.max_cycle_distance / 0x10000 % 256) as u8,
            (self.max_cycle_distance / 0x1000000 % 256) as u8,
            (self.min_sm_sync_distance % 256) as u8,
            (self.min_sm_sync_distance / 0x100 % 256) as u8,
            (self.min_sm_sync_distance / 0x10000 % 256) as u8,
            (self.min_sm_sync_distance / 0x1000000 % 256) as u8,
            (self.max_sm_sync_distance % 256) as u8,
            (self.max_sm_sync_distance / 0x100 % 256) as u8,
            (self.max_sm_sync_distance / 0x10000 % 256) as u8,
            (self.max_sm_sync_distance / 0x1000000 % 256) as u8,
            (self.reserved_1 % 256) as u8,
            (self.reserved_1 / 0x100 % 256) as u8,
            (self.reserved_1 / 0x10000 % 256) as u8,
            (self.reserved_1 / 0x1000000 % 256) as u8,
            (self.reserved_2 % 256) as u8,
            (self.reserved_2 / 0x100 % 256) as u8,
            (self.reserved_2 / 0x10000 % 256) as u8,
            (self.reserved_2 / 0x1000000 % 256) as u8,
            (self.reserved_2 / 0x100000000 % 256) as u8,
            (self.reserved_2 / 0x10000000000 % 256) as u8,
            (self.reserved_2 / 0x1000000000000 % 256) as u8,
            (self.reserved_2 / 0x100000000000000 % 256) as u8,
            if self.sync_error { 1u8 } else { 0u8 },
        ]
    }

    /// the struct read from the first bytes of `s`
    pub open spec fn from_bytes(s: Seq<u8>) -> Self {
        SynchronizationFull {
            nb_sync_params: s[0],
            sync_mode: (s[1] as int + s[2] as int * 256) as u16,
            cycle_time: (s[3] as int + s[4] as int * 0x100 + s[5] as int * 0x10000 + s[6] as int * 0x1000000) as u32,
            shift_time: (s[7] as int + s[8] as int * 0x100 + s[9] as int * 0x10000 + s[10] as int * 0x1000000) as u32,
            supported_sync_type: SyncModes::from_raw(s[11] as nat + s[12] as nat * 256),
            min_cycle_time: (s[13] as int + s[14] as int * 0x100 + s[15] as int * 0x10000 + s[16] as int * 0x1000000) as u32,
            calc_copy_time: (s[17] as int + s[18] as int * 0x100 + s[19] as int * 0x10000 + s[20] as int * 0x1000000) as u32,
            min_delay_time: (s[21] as int + s[22] as int * 0x100 + s[23] as int * 0x10000 + s[24] as int * 0x1000000) as u32,
            control: SyncCycleControl::from_raw(s[25] as nat + s[26] as nat * 256),
            delay_time: (s[27] as int + s[28] as int * 0x100 + s[29] as int * 0x10000 + s[30] as int * 0x1000000) as u32,
            sync0_cycle_time: (s[31] as int + s[32] as int * 0x100 + s[33] as int * 0x10000 + s[34] as int * 0x1000000) as u32,
            counter_sm_missed: (s[35] as int + s[36] as int * 256) as u16,
            counter_cycle_missed: (s[37] as int + s[38] as int * 256) as u16,
            counter_shift_missed: (s[39] as int + s[40] as int * 256) as u16,
            counter_toggle_failure: (s[41] as int + s[42] as int * 256) as u16,
            min_cycle_distance: (s[43] as int + s[44] as int * 0x100 + s[45] as int * 0x10000 + s[46] as int * 0x1000000) as u32,
            max_cycle_distance: (s[47] as int + s[48] as int * 0x100 + s[49] as int * 0x10000 + s[50] as int * 0x1000000) as u32,
            min_sm_sync_distance: (s[51] as int + s[52] as int * 0x100 + s[53] as int * 0x10000 + s[54] as int * 0x1000000) as u32,
            max_sm_sync_distance: (s[55] as int + s[56] as int * 0x100 + s[57] as int * 0x10000 + s[58] as int * 0x1000000) as u32,
            reserved_1: (s[59] as int + s[60] as int * 0x100 + s[61] as int * 0x10000 + s[62] as int * 0x1000000) as u32,
            reserved_2: (s[63] as int + s[64] as int * 0x100 + s[65] as int * 0x10000 + s[66] as int * 0x1000000 + s[67] as int * 0x100000000 + s[68] as int * 0x10000000000 + s[69] as int * 0x1000000000000 + s[70] as int * 0x100000000000000) as u64,
            sync_error: s[71] != 0,
        }
    }

    fn to_vec(&self) -> (r: Vec<u8>)
        ensures
            r@ == self.bytes(),
            r@.len() == 72,
    {
        let r: Vec<u8> = vec![
            self.nb_sync_params,
            (self.sync_mode % 256) as u8,
            (self.sync_mode / 256) as u8,
            (self.cycle_time % 256) as u8,
            (self.cycle_time / 0x100 % 256) as u8,
            (self.cycle_time / 0x10000 % 256) as u8,
            (self.cycle_time / 0x1000000 % 256) as u8,
            (self.shift_time % 256) as u8,
            (self.shift_time / 0x100 % 256) as u8,
            (self.shift_time / 0x10000 % 256) as u8,
            (self.shift_time / 0x1000000 % 256) as u8,
            (self.supported_sync_type.to_bits() % 256) as u8,
            (self.supported_sync_type.to_bits() / 256 % 256) as u8,
            (self.min_cycle_time % 256) as u8,
            (self.min_cycle_time / 0x100 % 256) as u8,
            (self.min_cycle_time / 0x10000 % 256) as u8,
            (self.min_cycle_time / 0x1000000 % 256) as u8,
            (self.calc_copy_time % 256) as u8,
            (self.calc_copy_time / 0x100 % 256) as u8,
            (self.calc_copy_time / 0x10000 % 256) as u8,
            (self.calc_copy_time / 0x1000000 % 256) as u8,
            (self.min_delay_time % 256) as u8,
            (self.min_delay_time / 0x100 % 256) as u8,
            (self.min_delay_time / 0x10000 % 256) as u8,
            (self.min_delay_time / 0x1000000 % 256) as u8,
            (self.control.to_bits() % 256) as u8,
            (self.control.to_bits() / 256 % 256) as u8,
            (self.delay_time % 256) as u8,
            (self.delay_time / 0x100 % 256) as u8,
            (self.delay_time / 0x10000 % 256) as u8,
            (self.delay_time / 0x1000000 % 256) as u8,
            (self.sync0_cycle_time % 256) as u8,
            (self.sync0_cycle_time / 0x100 % 256) as u8,
            (self.sync0_cycle_time / 0x10000 % 256) as u8,
            (self.sync0_cycle_time / 0x1000000 % 256) as u8,
            (self.counter_sm_missed % 256) as u8,
            (self.counter_sm_missed / 256) as u8,
            (self.counter_cycle_missed % 256) as u8,
            (self.counter_cycle_missed / 256) as u8,
            (self.counter_shift_missed % 256) as u8,
            (self.counter_shift_missed / 256) as u8,
            (self.counter_toggle_failure % 256) as u8,
            (self.counter_toggle_failure / 256) as u8,
            (self.min_cycle_distance % 256) as u8,
            (self.min_cycle_distance / 0x100 % 256) as u8,
            (self.min_cycle_distance / 0x10000 % 256) as u8,
            (self.min_cycle_distance / 0x1000000 % 256) as u8,
            (self.max_cycle_distance % 256) as u8,
            (self.max_cycle_distance / 0x100 % 256) as u8,
            (self.max_cycle_distance / 0x10000 % 256) as u8,
            (self.max_cycle_distance / 0x1000000 % 256) as u8,
            (self.min_sm_sync_distance % 256) as u8,
            (self.min_sm_sync_distance / 0x100 % 256) as u8,
            (self.min_sm_sync_distance / 0x10000 % 256) as u8,
            (self.min_sm_sync_distance / 0x1000000 % 256) as u8,
            (self.max_sm_sync_distance % 256) as u8,
            (self.max_sm_sync_distance / 0x100 % 256) as u8,
            (self.max_sm_sync_distance / 0x10000 % 256) as u8,
            (self.max_sm_sync_distance / 0x1000000 % 256) as u8,
            (self.reserved_1 % 256) as u8,
            (self.reserved_1 / 0x100 % 256) as u8,
            (self.reserved_1 / 0x10000 % 256) as u8,
            (self.reserved_1 / 0x1000000 % 256) as u8,
            (self.reserved_2 % 256) as u8,
            (self.reserved_2 / 0x100 % 256) as u8,
            (self.reserved_2 / 0x10000 % 256) as u8,
            (self.reserved_2 / 0x1000000 % 256) as u8,
            (self.reserved_2 / 0x100000000 % 256) as u8,
            (self.reserved_2 / 0x10000000000 % 256) as u8,
            (self.reserved_2 / 0x1000000000000 % 256) as u8,
            (self.reserved_2 / 0x100000000000000 % 256) as u8,
            if self.sync_error { 1u8 } else { 0u8 },
        ];
        proof {
            reveal(SynchronizationFull::bytes);
            assert(r@ =~= self.bytes());
        }
        r
    }

    fn from_slice(src: &[u8]) -> (r: Self)
        requires
            src@.len() >= 72,
        ensures
            r == Self::from_bytes(src@),
    {
        SynchronizationFull {
            nb_sync_params: src[0],
            sync_mode: src[1] as u16 + src[2] as u16 * 256,
            cycle_time: src[3] as u32 + src[4] as u32 * 0x100 + src[5] as u32 * 0x10000 + src[6] as u32 * 0x1000000,
            shift_time: src[7] as u32 + src[8] as u32 * 0x100 + src[9] as u32 * 0x10000 + src[10] as u32 * 0x1000000,
            supported_sync_type: SyncModes::from_bits(src[11] as u64 + src[12] as u64 * 256),
            min_cycle_time: src[13] as u32 + src[14] as u32 * 0x100 + src[15] as u32 * 0x10000 + src[16] as u32 * 0x1000000,
            calc_copy_time: src[17] as u32 + src[18] as u32 * 0x100 + src[19] as u32 * 0x10000 + src[20] as u32 * 0x1000000,
            min_delay_time: src[21] as u32 + src[22] as u32 * 0x100 + src[23] as u32 * 0x10000 + src[24] as u32 * 0x1000000,
            control: SyncCycleControl::from_bits(src[25] as u64 + src[26] as u64 * 256),
            delay_time: src[27] as u32 + src[28] as u32 * 0x100 + src[29] as u32 * 0x10000 + src[30] as u32 * 0x1000000,
            sync0_cycle_time: src[31] as u32 + src[32] as u32 * 0x100 + src[33] as u32 * 0x10000 + src[34] as u32 * 0x1000000,
            counter_sm_missed: src[35] as u16 + src[36] as u16 * 256,
            counter_cycle_missed: src[37] as u16 + src[38] as u16 * 256,
            counter_shift_missed: src[39] as u16 + src[40] as u16 * 256,
            counter_toggle_failure: src[41] as u16 + src[42] as u16 * 256,
            min_cycle_distance: src[43] as u32 + src[44] as u32 * 0x100 + src[45] as u32 * 0x10000 + src[46] as u32 * 0x1000000,
            max_cycle_distance: src[47] as u32 + src[48] as u32 * 0x100 + src[49] as u32 * 0x10000 + src[50] as u32 * 0x1000000,
            min_sm_sync_distance: src[51] as u32 + src[52] as u32 * 0x100 + src[53] as u32 * 0x10000 + src[54] as u32 * 0x1000000,
            max_sm_sync_distance: src[55] as u32 + src[56] as u32 * 0x100 + src[57] as u32 * 0x10000 + src[58] as u32 * 0x1000000,
            reserved_1: src[59] as u32 + src[60] as u32 * 0x100 + src[61] as u32 * 0x10000 + src[62] as u32 * 0x1000000,
            reserved_2: src[63] as u64 + src[64] as u64 * 0x100 + src[65] as u64 * 0x10000 + src[66] as u64 * 0x1000000 + src[67] as u64 * 0x100000000 + src[68] as u64 * 0x10000000000 + src[69] as u64 * 0x1000000000000 + src[70] as u64 * 0x100000000000000,
            sync_error: src[71] != 0,
        }
    }
}

impl PduData for SynchronizationFull {
    const ID: TypeId = TypeId::CUSTOM;
    type Packed = [u8; 72];

    open spec fn pack_defined(len: nat, bitoffset: u8, bitsize: usize, bitordering: Endianness) -> bool {
        true
    }

    open spec fn spec_pack_slice(
        &self,
        data: Seq<u8>,
        bitoffset: u8,
        bitsize: usize,
        bitordering: Endianness,
    ) -> PackingResult<Seq<u8>> {
        if bitoffset != 0 {
            Err(PackingError::BadAlignment(bitoffset as usize, "Offset not null"))
        } else if bitsize > data.len() {
            Err(PackingError::BadSize(bitsize, "Size too big for the slice"))
        } else {
            self.spec_pack(data)
        }
    }

    open spec fn unpack_defined(len: nat, bitoffset: u8, bitsize: usize, bitordering: Endianness) -> bool {
        true
    }

    open spec fn spec_unpack_slice(
        src: Seq<u8>,
        bitoffset: u8,
        bitsize: usize,
        bitordering: Endianness,
    ) -> PackingResult<Self> {
        if bitoffset != 0 {
            Err(PackingError::BadAlignment(bitoffset as usize, "Offset not null"))
        } else if bitsize > src.len() {
            Err(PackingError::BadSize(bitsize, "Size too big for the slice"))
        } else {
            Self::spec_unpack(src)
        }
    }

    open spec fn pack_whole_defined(len: nat) -> bool {
        true
    }

    open spec fn spec_pack(&self, data: Seq<u8>) -> PackingResult<Seq<u8>> {
        if data.len() < 72 {
            Err(PackingError::BadSize(data.len() as usize, "not enough bytes for struct"))
        } else {
            Ok(self.bytes() + data.subrange(72, data.len() as int))
        }
    }

    open spec fn unpack_whole_defined(len: nat) -> bool {
        true
    }

    open spec fn spec_unpack(src: Seq<u8>) -> PackingResult<Self> {
        if src.len() < 72 {
            Err(PackingError::BadSize(src.len() as usize, "not enough bytes for struct"))
        } else {
            Ok(Self::from_bytes(src))
        }
    }

    fn pack(&self, data: &mut [u8]) -> (r: PackingResult<()>) {
        if data.len() < 72 {
            return Err(PackingError::BadSize(data.len(), "not enough bytes for struct"));
        }
        let bytes = self.to_vec();
        let ghost d0 = data@;
        let mut i: usize = 0;
        while i < 72
            invariant
                i <= 72,
                72 <= d0.len(),
                bytes@ == self.bytes(),
                bytes@.len() == 72,
                data@.len() == d0.len(),
                forall|j: int| 0 <= j < d0.len() ==> #[trigger] data@[j] == if j < i {
                    bytes@[j]
                } else {
                    d0[j]
                },
            decreases 72 - i,
        {
            data[i] = bytes[i];
            i = i + 1;
        }
        proof {
            assert(data@ =~= self.bytes() + d0.subrange(72, d0.len() as int));
        }
        Ok(())
    }

    fn unpack(src: &[u8]) -> (r: PackingResult<Self>) {
        if src.len() < 72 {
            return Err(PackingError::BadSize(src.len(), "not enough bytes for struct"));
        }
        Ok(Self::from_slice(src))
    }

    fn pack_slice(
        &self,
        data: &mut [u8],
        bitoffset: u8,
        bitsize: usize,
        bitordering: Endianness,
    ) -> (r: PackingResult<()>) {
        if bitoffset != 0 {
            return Err(PackingError::BadAlignment(bitoffset as usize, "Offset not null"));
        }
        if bitsize > data.len() {
            return Err(PackingError::BadSize(bitsize, "Size too big for the slice"));
        }
        self.pack(data)
    }

    fn unpack_slice(src: &[u8], bitoffset: u8, bitsize: usize, bitordering: Endianness) -> (r: PackingResult<Self>) {
        if bitoffset != 0 {
            return Err(PackingError::BadAlignment(bitoffset as usize, "Offset not null"));
        }
        if bitsize > src.len() {
            return Err(PackingError::BadSize(bitsize, "Size too big for the slice"));
        }
        Self::unpack(src)
    }
}
/// kind of drive of a device
#[derive(Copy, Clone, Debug, PartialEq, Eq, Structural)]
pub struct DriveType {
    /// reserved bit
    pub reserved0: bool,
    /// bits 1 to 1
    pub servo: bool,
    /// bits 2 to 2
    pub stepper: bool,
    /// bits 3 to 3
    pub safety: bool,
    /// reserved bits
    pub reserved1: u8,
}

impl DriveType {
    /// the bits of the struct read as an integer, each field truncated to its width
    pub open spec fn raw(&self) -> nat {
        (if self.reserved0 { 1nat } else { 0nat })
            + (if self.servo { 1nat } else { 0nat }) * 0x2
            + (if self.stepper { 1nat } else { 0nat }) * 0x4
            + (if self.safety { 1nat } else { 0nat }) * 0x8
            + (self.reserved1 as nat % 0x10) * 0x10
    }

    /// every field fits in its width
    pub open spec fn wf(&self) -> bool {
        self.reserved1 < 0x10
    }

    /// the struct whose bits read as the integer `raw`
    pub open spec fn from_raw(raw: nat) -> Self {
        DriveType {
            reserved0: (raw % 0x2) == 1,
            servo: (raw / 0x2 % 0x2) == 1,
            stepper: (raw / 0x4 % 0x2) == 1,
            safety: (raw / 0x8 % 0x2) == 1,
            reserved1: (raw / 0x10 % 0x10) as u8,
        }
    }

    /// the bits of the struct read as an integer, each field truncated to its width
    pub fn to_bits(&self) -> (r: u64)
        ensures
            r == self.raw(),
    {
        let mut r: u64 = (if self.reserved0 { 1u64 } else { 0u64 });
        assert(r < 0x2);
        r = r + (if self.servo { 1u64 } else { 0u64 }) * 0x2;
        assert(r < 0x4);
        r = r + (if self.stepper { 1u64 } else { 0u64 }) * 0x4;
        assert(r < 0x8);
        r = r + (if self.safety { 1u64 } else { 0u64 }) * 0x8;
        assert(r < 0x10);
        r = r + (self.reserved1 as u64 % 0x10) * 0x10;
        r
    }

    /// the struct whose bits read as the integer `raw`
    pub fn from_bits(raw: u64) -> (r: Self)
        requires
            raw < 0x100,
        ensures
            r == Self::from_raw(raw as nat),
            r.wf(),
    {
        DriveType {
            reserved0: (raw % 0x2) == 1,
            servo: (raw / 0x2 % 0x2) == 1,
            stepper: (raw / 0x4 % 0x2) == 1,
            safety: (raw / 0x8 % 0x2) == 1,
            reserved1: (raw / 0x10 % 0x10) as u8,
        }
    }
}

impl PduData for DriveType {
    const ID: TypeId = TypeId::CUSTOM;
    type Packed = [u8; 1];

    open spec fn pack_defined(len: nat, bitoffset: u8, bitsize: usize, bitordering: Endianness) -> bool {
        true
    }

    open spec fn spec_pack_slice(
        &self,
        data: Seq<u8>,
        bitoffset: u8,
        bitsize: usize,
        bitordering: Endianness,
    ) -> PackingResult<Seq<u8>> {
        bits_pack_slice_result(self.raw(), 1, data, bitoffset, bitsize)
    }

    open spec fn unpack_defined(len: nat, bitoffset: u8, bitsize: usize, bitordering: Endianness) -> bool {
        true
    }

    open spec fn spec_unpack_slice(
        src: Seq<u8>,
        bitoffset: u8,
        bitsize: usize,
        bitordering: Endianness,
    ) -> PackingResult<Self> {
        match bits_unpack_slice_result(src, 1, bitoffset, bitsize) {
            Ok(v) => Ok(Self::from_raw(v)),
            Err(e) => Err(e),
        }
    }

    open spec fn pack_whole_defined(len: nat) -> bool {
        true
    }

    open spec fn spec_pack(&self, data: Seq<u8>) -> PackingResult<Seq<u8>> {
        bits_pack_result(self.raw(), 1, data)
    }

    open spec fn unpack_whole_defined(len: nat) -> bool {
        true
    }

    open spec fn spec_unpack(src: Seq<u8>) -> PackingResult<Self> {
        match bits_unpack_result(src, 1) {
            Ok(v) => Ok(Self::from_raw(v)),
            Err(e) => Err(e),
        }
    }

    fn pack(&self, data: &mut [u8]) -> (r: PackingResult<()>) {
        proof {
            lemma2_to64();
        }
        pack_bits(self.to_bits(), 1, data)
    }

    fn unpack(src: &[u8]) -> (r: PackingResult<Self>) {
        proof {
            lemma2_to64();
            lemma2_to64_rest();
        }
        match unpack_bits(src, 1) {
            Ok(v) => Ok(Self::from_bits(v)),
            Err(e) => Err(e),
        }
    }

    fn pack_slice(
        &self,
        data: &mut [u8],
        bitoffset: u8,
        bitsize: usize,
        bitordering: Endianness,
    ) -> (r: PackingResult<()>) {
        if bitoffset != 0 {
            return Err(PackingError::BadAlignment(bitoffset as usize, "Bit offset must be at 0 on this implementation"));
        }
        if bitsize != 0 {
            return Err(PackingError::BadSize(bitsize, "Bit size must be at 0 on this implementation"));
        }
        self.pack(data)
    }

    fn unpack_slice(src: &[u8], bitoffset: u8, bitsize: usize, bitordering: Endianness) -> (r: PackingResult<Self>) {
        if bitoffset != 0 {
            return Err(PackingError::BadAlignment(bitoffset as usize, "Bit offset must be at 0 on this implementation"));
        }
        if bitsize != 0 {
            return Err(PackingError::BadSize(bitsize, "Bit size must be at 0 on this implementation"));
        }
        Self::unpack(src)
    }
}

/// The bits of a [DriveType] whose fields fit in their widths, read back as a struct, give the
/// same struct; and any integer of its width, turned into a struct and back, is unchanged.
pub proof fn law_drive_type_bits_roundtrip(h: DriveType, raw: nat)
    ensures
        h.wf() ==> DriveType::from_raw(h.raw()) == h,
        raw < 0x100 ==> DriveType::from_raw(raw).raw() == raw,
{
    let x_reserved0: u64 = (if h.reserved0 { 1u64 } else { 0u64 });
    let x_servo: u64 = (if h.servo { 1u64 } else { 0u64 });
    let x_stepper: u64 = (if h.stepper { 1u64 } else { 0u64 });
    let x_safety: u64 = (if h.safety { 1u64 } else { 0u64 });
    let x_reserved1: u64 = (h.reserved1 as u64);
    let v: u64 = (x_reserved0 + x_servo * 0x2 + x_stepper * 0x4 + x_safety * 0x8 + x_reserved1 * 0x10) as u64;
    let r: u64 = raw as u64;
    assert({
        &&& !(v == x_reserved0 + x_servo * 0x2 + x_stepper * 0x4 + x_safety * 0x8 + x_reserved1 * 0x10 && x_reserved0 < 0x2 && x_servo < 0x2 && x_stepper < 0x2 && x_safety < 0x2 && x_reserved1 < 0x10) || (v % 0x2 == x_reserved0 && v / 0x2 % 0x2 == x_servo && v / 0x4 % 0x2 == x_stepper && v / 0x8 % 0x2 == x_safety && v / 0x10 % 0x10 == x_reserved1)
        &&& !(r < 0x100) || ((r % 0x2) + (r / 0x2 % 0x2) * 0x2 + (r / 0x4 % 0x2) * 0x4 + (r / 0x8 % 0x2) * 0x8 + (r / 0x10 % 0x10) * 0x10 == r)
    }) by (bit_vector);
    if h.wf() {
        assert(h.raw() == x_reserved0 + x_servo * 0x2 + x_stepper * 0x4 + x_safety * 0x8 + x_reserved1 * 0x10);
    }
}
/// type of a device
#[derive(Copy, Clone, Debug, PartialEq, Eq, Structural)]
pub struct DeviceType {
    /// device mode
    pub mode: u8,
    /// bits of a [DriveType]
    pub ty: u8,
    /// device profile
    pub profile: u16,
}

impl DeviceType {
    /// the bits of the struct read as an integer, each field truncated to its width
    pub open spec fn raw(&self) -> nat {
        (self.mode as nat % 0x100)
            + (self.ty as nat % 0x100) * 0x100
            + (self.profile as nat % 0x10000) * 0x10000
    }

    /// every field fits in its width
    pub open spec fn wf(&self) -> bool {
        true
    }

    /// the struct whose bits read as the integer `raw`
    pub open spec fn from_raw(raw: nat) -> Self {
        DeviceType {
            mode: (raw % 0x100) as u8,
            ty: (raw / 0x100 % 0x100) as u8,
            profile: (raw / 0x10000 % 0x10000) as u16,
        }
    }

    /// the bits of the struct read as an integer, each field truncated to its width
    pub fn to_bits(&self) -> (r: u64)
        ensures
            r == self.raw(),
    {
        (self.mode as u64 % 0x100)
            + (self.ty as u64 % 0x100) * 0x100
            + (self.profile as u64 % 0x10000) * 0x10000
    }

    /// the struct whose bits read as the integer `raw`
    pub fn from_bits(raw: u64) -> (r: Self)
        requires
            raw < 0x100000000,
        ensures
            r == Self::from_raw(raw as nat),
            r.wf(),
    {
        DeviceType {
            mode: (raw % 0x100) as u8,
            ty: (raw / 0x100 % 0x100) as u8,
            profile: (raw / 0x10000 % 0x10000) as u16,
        }
    }
}

impl PduData for DeviceType {
    const ID: TypeId = TypeId::CUSTOM;
    type Packed = [u8; 4];

    open spec fn pack_defined(len: nat, bitoffset: u8, bitsize: usize, bitordering: Endianness) -> bool {
        true
    }

    open spec fn spec_pack_slice(
        &self,
        data: Seq<u8>,
        bitoffset: u8,
        bitsize: usize,
        bitordering: Endianness,
    ) -> PackingResult<Seq<u8>> {
        bits_pack_slice_result(self.raw(), 4, data, bitoffset, bitsize)
    }

    open spec fn unpack_defined(len: nat, bitoffset: u8, bitsize: usize, bitordering: Endianness) -> bool {
        true
    }

    open spec fn spec_unpack_slice(
        src: Seq<u8>,
        bitoffset: u8,
        bitsize: usize,
        bitordering: Endianness,
    ) -> PackingResult<Self> {
        match bits_unpack_slice_result(src, 4, bitoffset, bitsize) {
            Ok(v) => Ok(Self::from_raw(v)),
            Err(e) => Err(e),
        }
    }

    open spec fn pack_whole_defined(len: nat) -> bool {
        true
    }

    open spec fn spec_pack(&self, data: Seq<u8>) -> PackingResult<Seq<u8>> {
        bits_pack_result(self.raw(), 4, data)
    }

    open spec fn unpack_whole_defined(len: nat) -> bool {
        true
    }

    open spec fn spec_unpack(src: Seq<u8>) -> PackingResult<Self> {
        match bits_unpack_result(src, 4) {
            Ok(v) => Ok(Self::from_raw(v)),
            Err(e) => Err(e),
        }
    }

    fn pack(&self, data: &mut [u8]) -> (r: PackingResult<()>) {
        proof {
            lemma2_to64();
        }
        pack_bits(self.to_bits(), 4, data)
    }

    fn unpack(src: &[u8]) -> (r: PackingResult<Self>) {
        proof {
            lemma2_to64();
            lemma2_to64_rest();
        }
        match unpack_bits(src, 4) {
            Ok(v) => Ok(Self::from_bits(v)),
            Err(e) => Err(e),
        }
    }

    fn pack_slice(
        &self,
        data: &mut [u8],
        bitoffset: u8,
        bitsize: usize,
        bitordering: Endianness,
    ) -> (r: PackingResult<()>) {
        if bitoffset != 0 {
            return Err(PackingError::BadAlignment(bitoffset as usize, "Bit offset must be at 0 on this implementation"));
        }
        if bitsize != 0 {
            return Err(PackingError::BadSize(bitsize, "Bit size must be at 0 on this implementation"));
        }
        self.pack(data)
    }

    fn unpack_slice(src: &[u8], bitoffset: u8, bitsize: usize, bitordering: Endianness) -> (r: PackingResult<Self>) {
        if bitoffset != 0 {
            return Err(PackingError::BadAlignment(bitoffset as usize, "Bit offset must be at 0 on this implementation"));
        }
        if bitsize != 0 {
            return Err(PackingError::BadSize(bitsize, "Bit size must be at 0 on this implementation"));
        }
        Self::unpack(src)
    }
}

/// The bits of a [DeviceType] whose fields fit in their widths, read back as a struct, give the
/// same struct; and any integer of its width, turned into a struct and back, is unchanged.
pub proof fn law_device_type_bits_roundtrip(h: DeviceType, raw: nat)
    ensures
        h.wf() ==> DeviceType::from_raw(h.raw()) == h,
        raw < 0x100000000 ==> DeviceType::from_raw(raw).raw() == raw,
{
    let x_mode: u64 = (h.mode as u64);
    let x_ty: u64 = (h.ty as u64);
    let x_profile: u64 = (h.profile as u64);
    let v: u64 = (x_mode + x_ty * 0x100 + x_profile * 0x10000) as u64;
    let r: u64 = raw as u64;
    assert({
        &&& !(v == x_mode + x_ty * 0x100 + x_profile * 0x10000 && x_mode < 0x100 && x_ty < 0x100 && x_profile < 0x10000) || (v % 0x100 == x_mode && v / 0x100 % 0x100 == x_ty && v / 0x10000 % 0x10000 == x_profile)
        &&& !(r < 0x100000000) || ((r % 0x100) + (r / 0x100 % 0x100) * 0x100 + (r / 0x10000 % 0x10000) * 0x10000 == r)
    }) by (bit_vector);
    if h.wf() {
        assert(h.raw() == x_mode + x_ty * 0x100 + x_profile * 0x10000);
    }
}
/**
    identify the source of actual errors on the device. several source can cause errors at the same time.

    ETG.1000.6 table 69
*/
#[derive(Copy, Clone, Debug, PartialEq, Eq, Structural)]
pub struct DeviceError {
    /// bits 0 to 0
    pub generic: bool,
    /// bits 1 to 1
    pub current: bool,
    /// bits 2 to 2
    pub voltage: bool,
    /// bits 3 to 3
    pub temperature: bool,
    /// bits 4 to 4
    pub communication: bool,
    /// bits 5 to 5
    pub device_profile: bool,
    /// reserved bit
    pub reserved: bool,
    /// bits 7 to 7
    pub manufacturer: bool,
}

impl DeviceError {
    /// the bits of the struct read as an integer, each field truncated to its width
    pub open spec fn raw(&self) -> nat {
        (if self.generic { 1nat } else { 0nat })
            + (if self.current { 1nat } else { 0nat }) * 0x2
            + (if self.voltage { 1nat } else { 0nat }) * 0x4
            + (if self.temperature { 1nat } else { 0nat }) * 0x8
            + (if self.communication { 1nat } else { 0nat }) * 0x10
            + (if self.device_profile { 1nat } else { 0nat }) * 0x20
            + (if self.reserved { 1nat } else { 0nat }) * 0x40
            + (if self.manufacturer { 1nat } else { 0nat }) * 0x80
    }

    /// every field fits in its width
    pub open spec fn wf(&self) -> bool {
        true
    }

    /// the struct whose bits read as the integer `raw`
    pub open spec fn from_raw(raw: nat) -> Self {
        DeviceError {
            generic: (raw % 0x2) == 1,
            current: (raw / 0x2 % 0x2) == 1,
            voltage: (raw / 0x4 % 0x2) == 1,
            temperature: (raw / 0x8 % 0x2) == 1,
            communication: (raw / 0x10 % 0x2) == 1,
            device_profile: (raw / 0x20 % 0x2) == 1,
            reserved: (raw / 0x40 % 0x2) == 1,
            manufacturer: (raw / 0x80 % 0x2) == 1,
        }
    }

    /// the bits of the struct read as an integer, each field truncated to its width
    #[verifier::rlimit(60)]
    pub fn to_bits(&self) -> (r: u64)
        ensures
            r == self.raw(),
    {
        let mut r: u64 = (if self.generic { 1u64 } else { 0u64 });
        assert(r < 0x2);
        r = r + (if self.current { 1u64 } else { 0u64 }) * 0x2;
        assert(r < 0x4);
        r = r + (if self.voltage { 1u64 } else { 0u64 }) * 0x4;
        assert(r < 0x8);
        r = r + (if self.temperature { 1u64 } else { 0u64 }) * 0x8;
        assert(r < 0x10);
        r = r + (if self.communication { 1u64 } else { 0u64 }) * 0x10;
        assert(r < 0x20);
        r = r + (if self.device_profile { 1u64 } else { 0u64 }) * 0x20;
        assert(r < 0x40);
        r = r + (if self.reserved { 1u64 } else { 0u64 }) * 0x40;
        assert(r < 0x80);
        r = r + (if self.manufacturer { 1u64 } else { 0u64 }) * 0x80;
        r
    }

    /// the struct whose bits read as the integer `raw`
    pub fn from_bits(raw: u64) -> (r: Self)
        requires
            raw < 0x100,
        ensures
            r == Self::from_raw(raw as nat),
            r.wf(),
    {
        DeviceError {
            generic: (raw % 0x2) == 1,
            current: (raw / 0x2 % 0x2) == 1,
            voltage: (raw / 0x4 % 0x2) == 1,
            temperature: (raw / 0x8 % 0x2) == 1,
            communication: (raw / 0x10 % 0x2) == 1,
            device_profile: (raw / 0x20 % 0x2) == 1,
            reserved: (raw / 0x40 % 0x2) == 1,
            manufacturer: (raw / 0x80 % 0x2) == 1,
        }
    }
}

impl PduData for DeviceError {
    const ID: TypeId = TypeId::CUSTOM;
    type Packed = [u8; 1];

    open spec fn pack_defined(len: nat, bitoffset: u8, bitsize: usize, bitordering: Endianness) -> bool {
        true
    }

    open spec fn spec_pack_slice(
        &self,
        data: Seq<u8>,
        bitoffset: u8,
        bitsize: usize,
        bitordering: Endianness,
    ) -> PackingResult<Seq<u8>> {
        bits_pack_slice_result(self.raw(), 1, data, bitoffset, bitsize)
    }

    open spec fn unpack_defined(len: nat, bitoffset: u8, bitsize: usize, bitordering: Endianness) -> bool {
        true
    }

    open spec fn spec_unpack_slice(
        src: Seq<u8>,
        bitoffset: u8,
        bitsize: usize,
        bitordering: Endianness,
    ) -> PackingResult<Self> {
        match bits_unpack_slice_result(src, 1, bitoffset, bitsize) {
            Ok(v) => Ok(Self::from_raw(v)),
            Err(e) => Err(e),
        }
    }

    open spec fn pack_whole_defined(len: nat) -> bool {
        true
    }

    open spec fn spec_pack(&self, data: Seq<u8>) -> PackingResult<Seq<u8>> {
        bits_pack_result(self.raw(), 1, data)
    }

    open spec fn unpack_whole_defined(len: nat) -> bool {
        true
    }

    open spec fn spec_unpack(src: Seq<u8>) -> PackingResult<Self> {
        match bits_unpack_result(src, 1) {
            Ok(v) => Ok(Self::from_raw(v)),
            Err(e) => Err(e),
        }
    }

    fn pack(&self, data: &mut [u8]) -> (r: PackingResult<()>) {
        proof {
            lemma2_to64();
        }
        pack_bits(self.to_bits(), 1, data)
    }

    fn unpack(src: &[u8]) -> (r: PackingResult<Self>) {
        proof {
            lemma2_to64();
            lemma2_to64_rest();
        }
        match unpack_bits(src, 1) {
            Ok(v) => Ok(Self::from_bits(v)),
            Err(e) => Err(e),
        }
    }

    fn pack_slice(
        &self,
        data: &mut [u8],
        bitoffset: u8,
        bitsize: usize,
        bitordering: Endianness,
    ) -> (r: PackingResult<()>) {
        if bitoffset != 0 {
            return Err(PackingError::BadAlignment(bitoffset as usize, "Bit offset must be at 0 on this implementation"));
        }
        if bitsize != 0 {
            return Err(PackingError::BadSize(bitsize, "Bit size must be at 0 on this implementation"));
        }
        self.pack(data)
    }

    fn unpack_slice(src: &[u8], bitoffset: u8, bitsize: usize, bitordering: Endianness) -> (r: PackingResult<Self>) {
        if bitoffset != 0 {
            return Err(PackingError::BadAlignment(bitoffset as usize, "Bit offset must be at 0 on this implementation"));
        }
        if bitsize != 0 {
            return Err(PackingError::BadSize(bitsize, "Bit size must be at 0 on this implementation"));
        }
        Self::unpack(src)
    }
}

/// The bits of a [DeviceError] whose fields fit in their widths, read back as a struct, give the
/// same struct; and any integer of its width, turned into a struct and back, is unchanged.
#[verifier::rlimit(60)]
pub proof fn law_device_error_bits_roundtrip(h: DeviceError, raw: nat)
    ensures
        h.wf() ==> DeviceError::from_raw(h.raw()) == h,
        raw < 0x100 ==> DeviceError::from_raw(raw).raw() == raw,
{
    let x_generic: u64 = (if h.generic { 1u64 } else { 0u64 });
    let x_current: u64 = (if h.current { 1u64 } else { 0u64 });
    let x_voltage: u64 = (if h.voltage { 1u64 } else { 0u64 });
    let x_temperature: u64 = (if h.temperature { 1u64 } else { 0u64 });
    let x_communication: u64 = (if h.communication { 1u64 } else { 0u64 });
    let x_device_profile: u64 = (if h.device_profile { 1u64 } else { 0u64 });
    let x_reserved: u64 = (if h.reserved { 1u64 } else { 0u64 });
    let x_manufacturer: u64 = (if h.manufacturer { 1u64 } else { 0u64 });
    let v: u64 = (x_generic + x_current * 0x2 + x_voltage * 0x4 + x_temperature * 0x8 + x_communication * 0x10 + x_device_profile * 0x20 + x_reserved * 0x40 + x_manufacturer * 0x80) as u64;
    let r: u64 = raw as u64;
    assert({
        &&& !(v == x_generic + x_current * 0x2 + x_voltage * 0x4 + x_temperature * 0x8 + x_communication * 0x10 + x_device_profile * 0x20 + x_reserved * 0x40 + x_manufacturer * 0x80 && x_generic < 0x2 && x_current < 0x2 && x_voltage < 0x2 && x_temperature < 0x2 && x_communication < 0x2 && x_device_profile < 0x2 && x_reserved < 0x2 && x_manufacturer < 0x2) || (v % 0x2 == x_generic && v / 0x2 % 0x2 == x_current && v / 0x4 % 0x2 == x_voltage && v / 0x8 % 0x2 == x_temperature && v / 0x10 % 0x2 == x_communication && v / 0x20 % 0x2 == x_device_profile && v / 0x40 % 0x2 == x_reserved && v / 0x80 % 0x2 == x_manufacturer)
        &&& !(r < 0x100) || ((r % 0x2) + (r / 0x2 % 0x2) * 0x2 + (r / 0x4 % 0x2) * 0x4 + (r / 0x8 % 0x2) * 0x8 + (r / 0x10 % 0x2) * 0x10 + (r / 0x20 % 0x2) * 0x20 + (r / 0x40 % 0x2) * 0x40 + (r / 0x80 % 0x2) * 0x80 == r)
    }) by (bit_vector);
    if h.wf() {
        assert(h.raw() == x_generic + x_current * 0x2 + x_voltage * 0x4 + x_temperature * 0x8 + x_communication * 0x10 + x_device_profile * 0x20 + x_reserved * 0x40 + x_manufacturer * 0x80);
    }
}
/// bit structure of a status word of a servo drive; bit 10 `reached_command`, bit 12 `following_command` and bit 13 `following_error` are operation specific, see [OperationMode]
#[derive(Copy, Clone, Debug, PartialEq, Eq, Structural)]
pub struct StatusWord {
    /// bits 0 to 0
    pub ready_switch_on: bool,
    /// bits 1 to 1
    pub switched_on: bool,
    /// bits 2 to 2
    pub operation_enabled: bool,
    /// bits 3 to 3
    pub fault: bool,
    /// bits 4 to 4
    pub voltage_enabled: bool,
    /// bits 5 to 5
    pub quick_stop: bool,
    /// bits 6 to 6
    pub switch_on_disabled: bool,
    /// bits 7 to 7
    pub warning: bool,
    /// manufacturer specific bit
    pub reserved0: bool,
    /// bits 9 to 9
    pub remote: bool,
    /// in synchronous modes, toggles each time a new command value is received; in other modes, true once the control loop reached the target
    pub reached_command: bool,
    /// bits 11 to 11
    pub limit_active: bool,
    /// true if the device control loop is actively following the command
    pub following_command: bool,
    /// in cyclic synchronous modes, extends `reached_command` into a 2-bit cycle counter
    pub following_error: bool,
    /// manufacturer specific bits
    pub reserved1: u8,
}

impl StatusWord {
    /// the bits of the struct read as an integer, each field truncated to its width
    pub open spec fn raw(&self) -> nat {
        (if self.ready_switch_on { 1nat } else { 0nat })
            + (if self.switched_on { 1nat } else { 0nat }) * 0x2
            + (if self.operation_enabled { 1nat } else { 0nat }) * 0x4
            + (if self.fault { 1nat } else { 0nat }) * 0x8
            + (if self.voltage_enabled { 1nat } else { 0nat }) * 0x10
            + (if self.quick_stop { 1nat } else { 0nat }) * 0x20
            + (if self.switch_on_disabled { 1nat } else { 0nat }) * 0x40
            + (if self.warning { 1nat } else { 0nat }) * 0x80
            + (if self.reserved0 { 1nat } else { 0nat }) * 0x100
            + (if self.remote { 1nat } else { 0nat }) * 0x200
            + (if self.reached_command { 1nat } else { 0nat }) * 0x400
            + (if self.limit_active { 1nat } else { 0nat }) * 0x800
            + (if self.following_command { 1nat } else { 0nat }) * 0x1000
            + (if self.following_error { 1nat } else { 0nat }) * 0x2000
            + (self.reserved1 as nat % 0x4) * 0x4000
    }

    /// every field fits in its width
    pub open spec fn wf(&self) -> bool {
        self.reserved1 < 0x4
    }

    /// the struct whose bits read as the integer `raw`
    pub open spec fn from_raw(raw: nat) -> Self {
        StatusWord {
            ready_switch_on: (raw % 0x2) == 1,
            switched_on: (raw / 0x2 % 0x2) == 1,
            operation_enabled: (raw / 0x4 % 0x2) == 1,
            fault: (raw / 0x8 % 0x2) == 1,
            voltage_enabled: (raw / 0x10 % 0x2) == 1,
            quick_stop: (raw / 0x20 % 0x2) == 1,
            switch_on_disabled: (raw / 0x40 % 0x2) == 1,
            warning: (raw / 0x80 % 0x2) == 1,
            reserved0: (raw / 0x100 % 0x2) == 1,
            remote: (raw / 0x200 % 0x2) == 1,
            reached_command: (raw / 0x400 % 0x2) == 1,
            limit_active: (raw / 0x800 % 0x2) == 1,
            following_command: (raw / 0x1000 % 0x2) == 1,
            following_error: (raw / 0x2000 % 0x2) == 1,
            reserved1: (raw / 0x4000 % 0x4) as u8,
        }
    }

    /// the bits of the struct read as an integer, each field truncated to its width
    #[verifier::rlimit(100)]
    #[verifier::spinoff_prover]
    pub fn to_bits(&self) -> (r: u64)
        ensures
            r == self.raw(),
    {
        let x_ready_switch_on: u64 = if self.ready_switch_on { 1u64 } else { 0u64 };
        let x_switched_on: u64 = if self.switched_on { 1u64 } else { 0u64 };
        let x_operation_enabled: u64 = if self.operation_enabled { 1u64 } else { 0u64 };
        let x_fault: u64 = if self.fault { 1u64 } else { 0u64 };
        let x_voltage_enabled: u64 = if self.voltage_enabled { 1u64 } else { 0u64 };
        let x_quick_stop: u64 = if self.quick_stop { 1u64 } else { 0u64 };
        let x_switch_on_disabled: u64 = if self.switch_on_disabled { 1u64 } else { 0u64 };
        let x_warning: u64 = if self.warning { 1u64 } else { 0u64 };
        let x_reserved0: u64 = if self.reserved0 { 1u64 } else { 0u64 };
        let x_remote: u64 = if self.remote { 1u64 } else { 0u64 };
        let x_reached_command: u64 = if self.reached_command { 1u64 } else { 0u64 };
        let x_limit_active: u64 = if self.limit_active { 1u64 } else { 0u64 };
        let x_following_command: u64 = if self.following_command { 1u64 } else { 0u64 };
        let x_following_error: u64 = if self.following_error { 1u64 } else { 0u64 };
        let x_reserved1: u64 = self.reserved1 as u64 % 0x4;
        let r: u64 = x_ready_switch_on | (x_switched_on << 1u64) | (x_operation_enabled << 2u64) | (x_fault << 3u64) | (x_voltage_enabled << 4u64) | (x_quick_stop << 5u64) | (x_switch_on_disabled << 6u64) | (x_warning << 7u64) | (x_reserved0 << 8u64) | (x_remote << 9u64) | (x_reached_command << 10u64) | (x_limit_active << 11u64) | (x_following_command << 12u64) | (x_following_error << 13u64) | (x_reserved1 << 14u64);
        assert(r == x_ready_switch_on + x_switched_on * 0x2 + x_operation_enabled * 0x4 + x_fault * 0x8 + x_voltage_enabled * 0x10 + x_quick_stop * 0x20 + x_switch_on_disabled * 0x40 + x_warning * 0x80 + x_reserved0 * 0x100 + x_remote * 0x200 + x_reached_command * 0x400 + x_limit_active * 0x800 + x_following_command * 0x1000 + x_following_error * 0x2000 + x_reserved1 * 0x4000) by (bit_vector)
            requires
                r == x_ready_switch_on | (x_switched_on << 1u64) | (x_operation_enabled << 2u64) | (x_fault << 3u64) | (x_voltage_enabled << 4u64) | (x_quick_stop << 5u64) | (x_switch_on_disabled << 6u64) | (x_warning << 7u64) | (x_reserved0 << 8u64) | (x_remote << 9u64) | (x_reached_command << 10u64) | (x_limit_active << 11u64) | (x_following_command << 12u64) | (x_following_error << 13u64) | (x_reserved1 << 14u64),
                x_ready_switch_on < 0x2,
                x_switched_on < 0x2,
                x_operation_enabled < 0x2,
                x_fault < 0x2,
                x_voltage_enabled < 0x2,
                x_quick_stop < 0x2,
                x_switch_on_disabled < 0x2,
                x_warning < 0x2,
                x_reserved0 < 0x2,
                x_remote < 0x2,
                x_reached_command < 0x2,
                x_limit_active < 0x2,
                x_following_command < 0x2,
                x_following_error < 0x2,
                x_reserved1 < 0x4,
        ;
        r
    }

    /// the struct whose bits read as the integer `raw`
    pub fn from_bits(raw: u64) -> (r: Self)
        requires
            raw < 0x10000,
        ensures
            r == Self::from_raw(raw as nat),
            r.wf(),
    {
        StatusWord {
            ready_switch_on: (raw % 0x2) == 1,
            switched_on: (raw / 0x2 % 0x2) == 1,
            operation_enabled: (raw / 0x4 % 0x2) == 1,
            fault: (raw / 0x8 % 0x2) == 1,
            voltage_enabled: (raw / 0x10 % 0x2) == 1,
            quick_stop: (raw / 0x20 % 0x2) == 1,
            switch_on_disabled: (raw / 0x40 % 0x2) == 1,
            warning: (raw / 0x80 % 0x2) == 1,
            reserved0: (raw / 0x100 % 0x2) == 1,
            remote: (raw / 0x200 % 0x2) == 1,
            reached_command: (raw / 0x400 % 0x2) == 1,
            limit_active: (raw / 0x800 % 0x2) == 1,
            following_command: (raw / 0x1000 % 0x2) == 1,
            following_error: (raw / 0x2000 % 0x2) == 1,
            reserved1: (raw / 0x4000 % 0x4) as u8,
        }
    }
}

impl PduData for StatusWord {
    const ID: TypeId = TypeId::CUSTOM;
    type Packed = [u8; 2];

    open spec fn pack_defined(len: nat, bitoffset: u8, bitsize: usize, bitordering: Endianness) -> bool {
        true
    }

    open spec fn spec_pack_slice(
        &self,
        data: Seq<u8>,
        bitoffset: u8,
        bitsize: usize,
        bitordering: Endianness,
    ) -> PackingResult<Seq<u8>> {
        bits_pack_slice_result(self.raw(), 2, data, bitoffset, bitsize)
    }

    open spec fn unpack_defined(len: nat, bitoffset: u8, bitsize: usize, bitordering: Endianness) -> bool {
        true
    }

    open spec fn spec_unpack_slice(
        src: Seq<u8>,
        bitoffset: u8,
        bitsize: usize,
        bitordering: Endianness,
    ) -> PackingResult<Self> {
        match bits_unpack_slice_result(src, 2, bitoffset, bitsize) {
            Ok(v) => Ok(Self::from_raw(v)),
            Err(e) => Err(e),
        }
    }

    open spec fn pack_whole_defined(len: nat) -> bool {
        true
    }

    open spec fn spec_pack(&self, data: Seq<u8>) -> PackingResult<Seq<u8>> {
        bits_pack_result(self.raw(), 2, data)
    }

    open spec fn unpack_whole_defined(len: nat) -> bool {
        true
    }

    open spec fn spec_unpack(src: Seq<u8>) -> PackingResult<Self> {
        match bits_unpack_result(src, 2) {
            Ok(v) => Ok(Self::from_raw(v)),
            Err(e) => Err(e),
        }
    }

    fn pack(&self, data: &mut [u8]) -> (r: PackingResult<()>) {
        proof {
            lemma2_to64();
        }
        pack_bits(self.to_bits(), 2, data)
    }

    fn unpack(src: &[u8]) -> (r: PackingResult<Self>) {
        proof {
            lemma2_to64();
            lemma2_to64_rest();
        }
        match unpack_bits(src, 2) {
            Ok(v) => Ok(Self::from_bits(v)),
            Err(e) => Err(e),
        }
    }

    fn pack_slice(
        &self,
        data: &mut [u8],
        bitoffset: u8,
        bitsize: usize,
        bitordering: Endianness,
    ) -> (r: PackingResult<()>) {
        if bitoffset != 0 {
            return Err(PackingError::BadAlignment(bitoffset as usize, "Bit offset must be at 0 on this implementation"));
        }
        if bitsize != 0 {
            return Err(PackingError::BadSize(bitsize, "Bit size must be at 0 on this implementation"));
        }
        self.pack(data)
    }

    fn unpack_slice(src: &[u8], bitoffset: u8, bitsize: usize, bitordering: Endianness) -> (r: PackingResult<Self>) {
        if bitoffset != 0 {
            return Err(PackingError::BadAlignment(bitoffset as usize, "Bit offset must be at 0 on this implementation"));
        }
        if bitsize != 0 {
            return Err(PackingError::BadSize(bitsize, "Bit size must be at 0 on this implementation"));
        }
        Self::unpack(src)
    }
}
/// control word of a servo drive
#[derive(Copy, Clone, Debug, PartialEq, Eq, Structural)]
pub struct ControlWord {
    /// bits 0 to 0
    pub switch_on: bool,
    /// bits 1 to 1
    pub enable_voltage: bool,
    /// bits 2 to 2
    pub quick_stop: bool,
    /// bits 3 to 3
    pub enable_operation: bool,
    /// operation-mode specific: in homing and profile modes, it triggers the command set in other SDOs
    pub trigger: bool,
    /// output cycle counter in cyclic synchronous modes
    pub cycle: u8,
    /// bits 7 to 7
    pub reset_fault: bool,
    /// bits 8 to 8
    pub halt: bool,
    /// operation mode specific bit
    pub specific: bool,
    /// reserved bit
    pub reserved0: bool,
    /// manufacturer specific bits
    pub reserved1: u8,
}

impl ControlWord {
    /// the bits of the struct read as an integer, each field truncated to its width
    pub open spec fn raw(&self) -> nat {
        (if self.switch_on { 1nat } else { 0nat })
            + (if self.enable_voltage { 1nat } else { 0nat }) * 0x2
            + (if self.quick_stop { 1nat } else { 0nat }) * 0x4
            + (if self.enable_operation { 1nat } else { 0nat }) * 0x8
            + (if self.trigger { 1nat } else { 0nat }) * 0x10
            + (self.cycle as nat % 0x4) * 0x20
            + (if self.reset_fault { 1nat } else { 0nat }) * 0x80
            + (if self.halt { 1nat } else { 0nat }) * 0x100
            + (if self.specific { 1nat } else { 0nat }) * 0x200
            + (if self.reserved0 { 1nat } else { 0nat }) * 0x400
            + (self.reserved1 as nat % 0x20) * 0x800
    }

    /// every field fits in its width
    pub open spec fn wf(&self) -> bool {
        self.cycle < 0x4
        && self.reserved1 < 0x20
    }

    /// the struct whose bits read as the integer `raw`
    pub open spec fn from_raw(raw: nat) -> Self {
        ControlWord {
            switch_on: (raw % 0x2) == 1,
            enable_voltage: (raw / 0x2 % 0x2) == 1,
            quick_stop: (raw / 0x4 % 0x2) == 1,
            enable_operation: (raw / 0x8 % 0x2) == 1,
            trigger: (raw / 0x10 % 0x2) == 1,
            cycle: (raw / 0x20 % 0x4) as u8,
            reset_fault: (raw / 0x80 % 0x2) == 1,
            halt: (raw / 0x100 % 0x2) == 1,
            specific: (raw / 0x200 % 0x2) == 1,
            reserved0: (raw / 0x400 % 0x2) == 1,
            reserved1: (raw / 0x800 % 0x20) as u8,
        }
    }

    /// the bits of the struct read as an integer, each field truncated to its width
    #[verifier::rlimit(100)]
    #[verifier::spinoff_prover]
    pub fn to_bits(&self) -> (r: u64)
        ensures
            r == self.raw(),
    {
        let x_switch_on: u64 = if self.switch_on { 1u64 } else { 0u64 };
        let x_enable_voltage: u64 = if self.enable_voltage { 1u64 } else { 0u64 };
        let x_quick_stop: u64 = if self.quick_stop { 1u64 } else { 0u64 };
        let x_enable_operation: u64 = if self.enable_operation { 1u64 } else { 0u64 };
        let x_trigger: u64 = if self.trigger { 1u64 } else { 0u64 };
        let x_cycle: u64 = self.cycle as u64 % 0x4;
        let x_reset_fault: u64 = if self.reset_fault { 1u64 } else { 0u64 };
        let x_halt: u64 = if self.halt { 1u64 } else { 0u64 };
        let x_specific: u64 = if self.specific { 1u64 } else { 0u64 };
        let x_reserved0: u64 = if self.reserved0 { 1u64 } else { 0u64 };
        let x_reserved1: u64 = self.reserved1 as u64 % 0x20;
        let r: u64 = x_switch_on | (x_enable_voltage << 1u64) | (x_quick_stop << 2u64) | (x_enable_operation << 3u64) | (x_trigger << 4u64) | (x_cycle << 5u64) | (x_reset_fault << 7u64) | (x_halt << 8u64) | (x_specific << 9u64) | (x_reserved0 << 10u64) | (x_reserved1 << 11u64);
        assert(r == x_switch_on + x_enable_voltage * 0x2 + x_quick_stop * 0x4 + x_enable_operation * 0x8 + x_trigger * 0x10 + x_cycle * 0x20 + x_reset_fault * 0x80 + x_halt * 0x100 + x_specific * 0x200 + x_reserved0 * 0x400 + x_reserved1 * 0x800) by (bit_vector)
            requires
                r == x_switch_on | (x_enable_voltage << 1u64) | (x_quick_stop << 2u64) | (x_enable_operation << 3u64) | (x_trigger << 4u64) | (x_cycle << 5u64) | (x_reset_fault << 7u64) | (x_halt << 8u64) | (x_specific << 9u64) | (x_reserved0 << 10u64) | (x_reserved1 << 11u64),
                x_switch_on < 0x2,
                x_enable_voltage < 0x2,
                x_quick_stop < 0x2,
                x_enable_operation < 0x2,
                x_trigger < 0x2,
                x_cycle < 0x4,
                x_reset_fault < 0x2,
                x_halt < 0x2,
                x_specific < 0x2,
                x_reserved0 < 0x2,
                x_reserved1 < 0x20,
        ;
        r
    }

    /// the struct whose bits read as the integer `raw`
    pub fn from_bits(raw: u64) -> (r: Self)
        requires
            raw < 0x10000,
        ensures
            r == Self::from_raw(raw as nat),
            r.wf(),
    {
        ControlWord {
            switch_on: (raw % 0x2) == 1,
            enable_voltage: (raw / 0x2 % 0x2) == 1,
            quick_stop: (raw / 0x4 % 0x2) == 1,
            enable_operation: (raw / 0x8 % 0x2) == 1,
            trigger: (raw / 0x10 % 0x2) == 1,
            cycle: (raw / 0x20 % 0x4) as u8,
            reset_fault: (raw / 0x80 % 0x2) == 1,
            halt: (raw / 0x100 % 0x2) == 1,
            specific: (raw / 0x200 % 0x2) == 1,
            reserved0: (raw / 0x400 % 0x2) == 1,
            reserved1: (raw / 0x800 % 0x20) as u8,
        }
    }
}

impl PduData for ControlWord {
    const ID: TypeId = TypeId::CUSTOM;
    type Packed = [u8; 2];

    open spec fn pack_defined(len: nat, bitoffset: u8, bitsize: usize, bitordering: Endianness) -> bool {
        true
    }

    open spec fn spec_pack_slice(
        &self,
        data: Seq<u8>,
        bitoffset: u8,
        bitsize: usize,
        bitordering: Endianness,
    ) -> PackingResult<Seq<u8>> {
        bits_pack_slice_result(self.raw(), 2, data, bitoffset, bitsize)
    }

    open spec fn unpack_defined(len: nat, bitoffset: u8, bitsize: usize, bitordering: Endianness) -> bool {
        true
    }

    open spec fn spec_unpack_slice(
        src: Seq<u8>,
        bitoffset: u8,
        bitsize: usize,
        bitordering: Endianness,
    ) -> PackingResult<Self> {
        match bits_unpack_slice_result(src, 2, bitoffset, bitsize) {
            Ok(v) => Ok(Self::from_raw(v)),
            Err(e) => Err(e),
        }
    }

    open spec fn pack_whole_defined(len: nat) -> bool {
        true
    }

    open spec fn spec_pack(&self, data: Seq<u8>) -> PackingResult<Seq<u8>> {
        bits_pack_result(self.raw(), 2, data)
    }

    open spec fn unpack_whole_defined(len: nat) -> bool {
        true
    }

    open spec fn spec_unpack(src: Seq<u8>) -> PackingResult<Self> {
        match bits_unpack_result(src, 2) {
            Ok(v) => Ok(Self::from_raw(v)),
            Err(e) => Err(e),
        }
    }

    fn pack(&self, data: &mut [u8]) -> (r: PackingResult<()>) {
        proof {
            lemma2_to64();
        }
        pack_bits(self.to_bits(), 2, data)
    }

    fn unpack(src: &[u8]) -> (r: PackingResult<Self>) {
        proof {
            lemma2_to64();
            lemma2_to64_rest();
        }
        match unpack_bits(src, 2) {
            Ok(v) => Ok(Self::from_bits(v)),
            Err(e) => Err(e),
        }
    }

    fn pack_slice(
        &self,
        data: &mut [u8],
        bitoffset: u8,
        bitsize: usize,
        bitordering: Endianness,
    ) -> (r: PackingResult<()>) {
        if bitoffset != 0 {
            return Err(PackingError::BadAlignment(bitoffset as usize, "Bit offset must be at 0 on this implementation"));
        }
        if bitsize != 0 {
            return Err(PackingError::BadSize(bitsize, "Bit size must be at 0 on this implementation"));
        }
        self.pack(data)
    }

    fn unpack_slice(src: &[u8], bitoffset: u8, bitsize: usize, bitordering: Endianness) -> (r: PackingResult<Self>) {
        if bitoffset != 0 {
            return Err(PackingError::BadAlignment(bitoffset as usize, "Bit offset must be at 0 on this implementation"));
        }
        if bitsize != 0 {
            return Err(PackingError::BadSize(bitsize, "Bit size must be at 0 on this implementation"));
        }
        Self::unpack(src)
    }
}
/// operation mode of a servo drive (ETG.6010)
#[derive(Copy, Clone, Debug, PartialEq, Eq, Structural)]
pub enum OperationMode {
    Off,
    ProfilePosition,
    Velocity,
    ProfileVelocity,
    TorqueProfile,
    Homing,
    InterpolatedPosition,
    /// CSP (Cyclic Synchronous Position)
    SynchronousPosition,
    /// CSV (Cyclic Synchronous Velocity)
    SynchronousVelocity,
    /// CST (Cyclic Synchronous Torque)
    SynchronousTorque,
    /// CSTCA (Cyclic Synchronous Torque mode with Commutation Angle)
    SynchronousTorqueCommutation,
}

/// code of a [OperationMode] on the wire
pub open spec fn operation_mode_code(v: OperationMode) -> u8 {
    match v {
        OperationMode::Off => 0,
        OperationMode::ProfilePosition => 1,
        OperationMode::Velocity => 2,
        OperationMode::ProfileVelocity => 3,
        OperationMode::TorqueProfile => 4,
        OperationMode::Homing => 6,
        OperationMode::InterpolatedPosition => 7,
        OperationMode::SynchronousPosition => 8,
        OperationMode::SynchronousVelocity => 9,
        OperationMode::SynchronousTorque => 10,
        OperationMode::SynchronousTorqueCommutation => 11,
    }
}

/// the [OperationMode] of a code on the wire, if any
pub open spec fn operation_mode_of_code(code: u8) -> Option<OperationMode> {
    match code {
        0 => Some(OperationMode::Off),
        1 => Some(OperationMode::ProfilePosition),
        2 => Some(OperationMode::Velocity),
        3 => Some(OperationMode::ProfileVelocity),
        4 => Some(OperationMode::TorqueProfile),
        6 => Some(OperationMode::Homing),
        7 => Some(OperationMode::InterpolatedPosition),
        8 => Some(OperationMode::SynchronousPosition),
        9 => Some(OperationMode::SynchronousVelocity),
        10 => Some(OperationMode::SynchronousTorque),
        11 => Some(OperationMode::SynchronousTorqueCommutation),
        _ => None,
    }
}

impl OperationMode {
    /// code on the wire
    pub fn code(self) -> (r: u8)
        ensures
            r == operation_mode_code(self),
    {
        match self {
            OperationMode::Off => 0,
            OperationMode::ProfilePosition => 1,
            OperationMode::Velocity => 2,
            OperationMode::ProfileVelocity => 3,
            OperationMode::TorqueProfile => 4,
            OperationMode::Homing => 6,
            OperationMode::InterpolatedPosition => 7,
            OperationMode::SynchronousPosition => 8,
            OperationMode::SynchronousVelocity => 9,
            OperationMode::SynchronousTorque => 10,
            OperationMode::SynchronousTorqueCommutation => 11,
        }
    }

    /// the variant of a code on the wire, if any
    pub fn from_code(code: u8) -> (r: Option<Self>)
        ensures
            r == operation_mode_of_code(code),
    {
        match code {
            0 => Some(OperationMode::Off),
            1 => Some(OperationMode::ProfilePosition),
            2 => Some(OperationMode::Velocity),
            3 => Some(OperationMode::ProfileVelocity),
            4 => Some(OperationMode::TorqueProfile),
            6 => Some(OperationMode::Homing),
            7 => Some(OperationMode::InterpolatedPosition),
            8 => Some(OperationMode::SynchronousPosition),
            9 => Some(OperationMode::SynchronousVelocity),
            10 => Some(OperationMode::SynchronousTorque),
            11 => Some(OperationMode::SynchronousTorqueCommutation),
            _ => None,
        }
    }
}

/// Decoding the code of a [OperationMode] gives back the same variant.
pub proof fn law_operation_mode_code_roundtrip(v: OperationMode)
    ensures
        operation_mode_of_code(operation_mode_code(v)) == Some(v),
{
}
/**
    provide information on the supported drive modes. each field match a standard variant of [OperationMode].

    ETG.6010 figure 15
*/
#[derive(Copy, Clone, Debug, PartialEq, Eq, Structural)]
pub struct SupportedModes {
    /// bits 0 to 0
    pub profile_position: bool,
    /// bits 1 to 1
    pub velocity: bool,
    /// bits 2 to 2
    pub profile_velocity: bool,
    /// bits 3 to 3
    pub torque_profile: bool,
    /// bits 4 to 4
    pub homing: bool,
    /// bits 5 to 5
    pub interpolated_position: bool,
    /// bits 6 to 6
    pub synchronous_position: bool,
    /// bits 7 to 7
    pub synchronous_velocity: bool,
    /// bits 8 to 8
    pub synchronous_torque: bool,
    /// bits 9 to 9
    pub synchronous_torque_commutation: bool,
    /// manufacturer-specific modes
    pub reserved: u32,
}

impl SupportedModes {
    /// the bits of the struct read as an integer, each field truncated to its width
    pub open spec fn raw(&self) -> nat {
        (if self.profile_position { 1nat } else { 0nat })
            + (if self.velocity { 1nat } else { 0nat }) * 0x2
            + (if self.profile_velocity { 1nat } else { 0nat }) * 0x4
            + (if self.torque_profile { 1nat } else { 0nat }) * 0x8
            + (if self.homing { 1nat } else { 0nat }) * 0x10
            + (if self.interpolated_position { 1nat } else { 0nat }) * 0x20
            + (if self.synchronous_position { 1nat } else { 0nat }) * 0x40
            + (if self.synchronous_velocity { 1nat } else { 0nat }) * 0x80
            + (if self.synchronous_torque { 1nat } else { 0nat }) * 0x100
            + (if self.synchronous_torque_commutation { 1nat } else { 0nat }) * 0x200
            + (self.reserved as nat % 0x400000) * 0x400
    }

    /// every field fits in its width
    pub open spec fn wf(&self) -> bool {
        self.reserved < 0x400000
    }

    /// the struct whose bits read as the integer `raw`
    pub open spec fn from_raw(raw: nat) -> Self {
        SupportedModes {
            profile_position: (raw % 0x2) == 1,
            velocity: (raw / 0x2 % 0x2) == 1,
            profile_velocity: (raw / 0x4 % 0x2) == 1,
            torque_profile: (raw / 0x8 % 0x2) == 1,
            homing: (raw / 0x10 % 0x2) == 1,
            interpolated_position: (raw / 0x20 % 0x2) == 1,
            synchronous_position: (raw / 0x40 % 0x2) == 1,
            synchronous_velocity: (raw / 0x80 % 0x2) == 1,
            synchronous_torque: (raw / 0x100 % 0x2) == 1,
            synchronous_torque_commutation: (raw / 0x200 % 0x2) == 1,
            reserved: (raw / 0x400 % 0x400000) as u32,
        }
    }

    /// the bits of the struct read as an integer, each field truncated to its width
    #[verifier::rlimit(100)]
    #[verifier::spinoff_prover]
    pub fn to_bits(&self) -> (r: u64)
        ensures
            r == self.raw(),
    {
        let x_profile_position: u64 = if self.profile_position { 1u64 } else { 0u64 };
        let x_velocity: u64 = if self.velocity { 1u64 } else { 0u64 };
        let x_profile_velocity: u64 = if self.profile_velocity { 1u64 } else { 0u64 };
        let x_torque_profile: u64 = if self.torque_profile { 1u64 } else { 0u64 };
        let x_homing: u64 = if self.homing { 1u64 } else { 0u64 };
        let x_interpolated_position: u64 = if self.interpolated_position { 1u64 } else { 0u64 };
        let x_synchronous_position: u64 = if self.synchronous_position { 1u64 } else { 0u64 };
        let x_synchronous_velocity: u64 = if self.synchronous_velocity { 1u64 } else { 0u64 };
        let x_synchronous_torque: u64 = if self.synchronous_torque { 1u64 } else { 0u64 };
        let x_synchronous_torque_commutation: u64 = if self.synchronous_torque_commutation { 1u64 } else { 0u64 };
        let x_reserved: u64 = self.reserved as u64 % 0x400000;
        let r: u64 = x_profile_position | (x_velocity << 1u64) | (x_profile_velocity << 2u64) | (x_torque_profile << 3u64) | (x_homing << 4u64) | (x_interpolated_position << 5u64) | (x_synchronous_position << 6u64) | (x_synchronous_velocity << 7u64) | (x_synchronous_torque << 8u64) | (x_synchronous_torque_commutation << 9u64) | (x_reserved << 10u64);
        assert(r == x_profile_position + x_velocity * 0x2 + x_profile_velocity * 0x4 + x_torque_profile * 0x8 + x_homing * 0x10 + x_interpolated_position * 0x20 + x_synchronous_position * 0x40 + x_synchronous_velocity * 0x80 + x_synchronous_torque * 0x100 + x_synchronous_torque_commutation * 0x200 + x_reserved * 0x400) by (bit_vector)
            requires
                r == x_profile_position | (x_velocity << 1u64) | (x_profile_velocity << 2u64) | (x_torque_profile << 3u64) | (x_homing << 4u64) | (x_interpolated_position << 5u64) | (x_synchronous_position << 6u64) | (x_synchronous_velocity << 7u64) | (x_synchronous_torque << 8u64) | (x_synchronous_torque_commutation << 9u64) | (x_reserved << 10u64),
                x_profile_position < 0x2,
                x_velocity < 0x2,
                x_profile_velocity < 0x2,
                x_torque_profile < 0x2,
                x_homing < 0x2,
                x_interpolated_position < 0x2,
                x_synchronous_position < 0x2,
                x_synchronous_velocity < 0x2,
                x_synchronous_torque < 0x2,
                x_synchronous_torque_commutation < 0x2,
                x_reserved < 0x400000,
        ;
        r
    }

    /// the struct whose bits read as the integer `raw`
    pub fn from_bits(raw: u64) -> (r: Self)
        requires
            raw < 0x100000000,
        ensures
            r == Self::from_raw(raw as nat),
            r.wf(),
    {
        SupportedModes {
            profile_position: (raw % 0x2) == 1,
            velocity: (raw / 0x2 % 0x2) == 1,
            profile_velocity: (raw / 0x4 % 0x2) == 1,
            torque_profile: (raw / 0x8 % 0x2) == 1,
            homing: (raw / 0x10 % 0x2) == 1,
            interpolated_position: (raw / 0x20 % 0x2) == 1,
            synchronous_position: (raw / 0x40 % 0x2) == 1,
            synchronous_velocity: (raw / 0x80 % 0x2) == 1,
            synchronous_torque: (raw / 0x100 % 0x2) == 1,
            synchronous_torque_commutation: (raw / 0x200 % 0x2) == 1,
            reserved: (raw / 0x400 % 0x400000) as u32,
        }
    }
}

impl PduData for SupportedModes {
    const ID: TypeId = TypeId::CUSTOM;
    type Packed = [u8; 4];

    open spec fn pack_defined(len: nat, bitoffset: u8, bitsize: usize, bitordering: Endianness) -> bool {
        true
    }

    open spec fn spec_pack_slice(
        &self,
        data: Seq<u8>,
        bitoffset: u8,
        bitsize: usize,
        bitordering: Endianness,
    ) -> PackingResult<Seq<u8>> {
        bits_pack_slice_result(self.raw(), 4, data, bitoffset, bitsize)
    }

    open spec fn unpack_defined(len: nat, bitoffset: u8, bitsize: usize, bitordering: Endianness) -> bool {
        true
    }

    open spec fn spec_unpack_slice(
        src: Seq<u8>,
        bitoffset: u8,
        bitsize: usize,
        bitordering: Endianness,
    ) -> PackingResult<Self> {
        match bits_unpack_slice_result(src, 4, bitoffset, bitsize) {
            Ok(v) => Ok(Self::from_raw(v)),
            Err(e) => Err(e),
        }
    }

    open spec fn pack_whole_defined(len: nat) -> bool {
        true
    }

    open spec fn spec_pack(&self, data: Seq<u8>) -> PackingResult<Seq<u8>> {
        bits_pack_result(self.raw(), 4, data)
    }

    open spec fn unpack_whole_defined(len: nat) -> bool {
        true
    }

    open spec fn spec_unpack(src: Seq<u8>) -> PackingResult<Self> {
        match bits_unpack_result(src, 4) {
            Ok(v) => Ok(Self::from_raw(v)),
            Err(e) => Err(e),
        }
    }

    fn pack(&self, data: &mut [u8]) -> (r: PackingResult<()>) {
        proof {
            lemma2_to64();
        }
        pack_bits(self.to_bits(), 4, data)
    }

    fn unpack(src: &[u8]) -> (r: PackingResult<Self>) {
        proof {
            lemma2_to64();
            lemma2_to64_rest();
        }
        match unpack_bits(src, 4) {
            Ok(v) => Ok(Self::from_bits(v)),
            Err(e) => Err(e),
        }
    }

    fn pack_slice(
        &self,
        data: &mut [u8],
        bitoffset: u8,
        bitsize: usize,
        bitordering: Endianness,
    ) -> (r: PackingResult<()>) {
        if bitoffset != 0 {
            return Err(PackingError::BadAlignment(bitoffset as usize, "Bit offset must be at 0 on this implementation"));
        }
        if bitsize != 0 {
            return Err(PackingError::BadSize(bitsize, "Bit size must be at 0 on this implementation"));
        }
        self.pack(data)
    }

    fn unpack_slice(src: &[u8], bitoffset: u8, bitsize: usize, bitordering: Endianness) -> (r: PackingResult<Self>) {
        if bitoffset != 0 {
            return Err(PackingError::BadAlignment(bitoffset as usize, "Bit offset must be at 0 on this implementation"));
        }
        if bitsize != 0 {
            return Err(PackingError::BadSize(bitsize, "Bit size must be at 0 on this implementation"));
        }
        Self::unpack(src)
    }
}
/// ETG.6010 figure 16, 17
#[derive(Copy, Clone, Debug, PartialEq, Eq, Structural)]
pub struct SynchronizationSetting {
    /// bits 0 to 0
    pub toggle: bool,
    /// bits 1 to 1
    pub input_cycle: bool,
    /// bits 2 to 2
    pub output_cycle: bool,
    /// reserved bits
    pub reserved: u32,
}

impl SynchronizationSetting {
    /// the bits of the struct read as an integer, each field truncated to its width
    pub open spec fn raw(&self) -> nat {
        (if self.toggle { 1nat } else { 0nat })
            + (if self.input_cycle { 1nat } else { 0nat }) * 0x2
            + (if self.output_cycle { 1nat } else { 0nat }) * 0x4
            + (self.reserved as nat % 0x20000000) * 0x8
    }

    /// every field fits in its width
    pub open spec fn wf(&self) -> bool {
        self.reserved < 0x20000000
    }

    /// the struct whose bits read as the integer `raw`
    pub open spec fn from_raw(raw: nat) -> Self {
        SynchronizationSetting {
            toggle: (raw % 0x2) == 1,
            input_cycle: (raw / 0x2 % 0x2) == 1,
            output_cycle: (raw / 0x4 % 0x2) == 1,
            reserved: (raw / 0x8 % 0x20000000) as u32,
        }
    }

    /// the bits of the struct read as an integer, each field truncated to its width
    pub fn to_bits(&self) -> (r: u64)
        ensures
            r == self.raw(),
    {
        (if self.toggle { 1u64 } else { 0u64 })
            + (if self.input_cycle { 1u64 } else { 0u64 }) * 0x2
            + (if self.output_cycle { 1u64 } else { 0u64 }) * 0x4
            + (self.reserved as u64 % 0x20000000) * 0x8
    }

    /// the struct whose bits read as the integer `raw`
    pub fn from_bits(raw: u64) -> (r: Self)
        requires
            raw < 0x100000000,
        ensures
            r == Self::from_raw(raw as nat),
            r.wf(),
    {
        SynchronizationSetting {
            toggle: (raw % 0x2) == 1,
            input_cycle: (raw / 0x2 % 0x2) == 1,
            output_cycle: (raw / 0x4 % 0x2) == 1,
            reserved: (raw / 0x8 % 0x20000000) as u32,
        }
    }
}

impl PduData for SynchronizationSetting {
    const ID: TypeId = TypeId::CUSTOM;
    type Packed = [u8; 4];

    open spec fn pack_defined(len: nat, bitoffset: u8, bitsize: usize, bitordering: Endianness) -> bool {
        true
    }

    open spec fn spec_pack_slice(
        &self,
        data: Seq<u8>,
        bitoffset: u8,
        bitsize: usize,
        bitordering: Endianness,
    ) -> PackingResult<Seq<u8>> {
        bits_pack_slice_result(self.raw(), 4, data, bitoffset, bitsize)
    }

    open spec fn unpack_defined(len: nat, bitoffset: u8, bitsize: usize, bitordering: Endianness) -> bool {
        true
    }

    open spec fn spec_unpack_slice(
        src: Seq<u8>,
        bitoffset: u8,
        bitsize: usize,
        bitordering: Endianness,
    ) -> PackingResult<Self> {
        match bits_unpack_slice_result(src, 4, bitoffset, bitsize) {
            Ok(v) => Ok(Self::from_raw(v)),
            Err(e) => Err(e),
        }
    }

    open spec fn pack_whole_defined(len: nat) -> bool {
        true
    }

    open spec fn spec_pack(&self, data: Seq<u8>) -> PackingResult<Seq<u8>> {
        bits_pack_result(self.raw(), 4, data)
    }

    open spec fn unpack_whole_defined(len: nat) -> bool {
        true
    }

    open spec fn spec_unpack(src: Seq<u8>) -> PackingResult<Self> {
        match bits_unpack_result(src, 4) {
            Ok(v) => Ok(Self::from_raw(v)),
            Err(e) => Err(e),
        }
    }

    fn pack(&self, data: &mut [u8]) -> (r: PackingResult<()>) {
        proof {
            lemma2_to64();
        }
        pack_bits(self.to_bits(), 4, data)
    }

    fn unpack(src: &[u8]) -> (r: PackingResult<Self>) {
        proof {
            lemma2_to64();
            lemma2_to64_rest();
        }
        match unpack_bits(src, 4) {
            Ok(v) => Ok(Self::from_bits(v)),
            Err(e) => Err(e),
        }
    }

    fn pack_slice(
        &self,
        data: &mut [u8],
        bitoffset: u8,
        bitsize: usize,
        bitordering: Endianness,
    ) -> (r: PackingResult<()>) {
        if bitoffset != 0 {
            return Err(PackingError::BadAlignment(bitoffset as usize, "Bit offset must be at 0 on this implementation"));
        }
        if bitsize != 0 {
            return Err(PackingError::BadSize(bitsize, "Bit size must be at 0 on this implementation"));
        }
        self.pack(data)
    }

    fn unpack_slice(src: &[u8], bitoffset: u8, bitsize: usize, bitordering: Endianness) -> (r: PackingResult<Self>) {
        if bitoffset != 0 {
            return Err(PackingError::BadAlignment(bitoffset as usize, "Bit offset must be at 0 on this implementation"));
        }
        if bitsize != 0 {
            return Err(PackingError::BadSize(bitsize, "Bit size must be at 0 on this implementation"));
        }
        Self::unpack(src)
    }
}

/// The bits of a [SynchronizationSetting] whose fields fit in their widths, read back as a struct, give the
/// same struct; and any integer of its width, turned into a struct and back, is unchanged.
pub proof fn law_synchronization_setting_bits_roundtrip(h: SynchronizationSetting, raw: nat)
    ensures
        h.wf() ==> SynchronizationSetting::from_raw(h.raw()) == h,
        raw < 0x100000000 ==> SynchronizationSetting::from_raw(raw).raw() == raw,
{
    let x_toggle: u64 = (if h.toggle { 1u64 } else { 0u64 });
    let x_input_cycle: u64 = (if h.input_cycle { 1u64 } else { 0u64 });
    let x_output_cycle: u64 = (if h.output_cycle { 1u64 } else { 0u64 });
    let x_reserved: u64 = (h.reserved as u64);
    let v: u64 = (x_toggle + x_input_cycle * 0x2 + x_output_cycle * 0x4 + x_reserved * 0x8) as u64;
    let r: u64 = raw as u64;
    assert({
        &&& !(v == x_toggle + x_input_cycle * 0x2 + x_output_cycle * 0x4 + x_reserved * 0x8 && x_toggle < 0x2 && x_input_cycle < 0x2 && x_output_cycle < 0x2 && x_reserved < 0x20000000) || (v % 0x2 == x_toggle && v / 0x2 % 0x2 == x_input_cycle && v / 0x4 % 0x2 == x_output_cycle && v / 0x8 % 0x20000000 == x_reserved)
        &&& !(r < 0x100000000) || ((r % 0x2) + (r / 0x2 % 0x2) * 0x2 + (r / 0x4 % 0x2) * 0x4 + (r / 0x8 % 0x20000000) * 0x8 == r)
    }) by (bit_vector);
    if h.wf() {
        assert(h.raw() == x_toggle + x_input_cycle * 0x2 + x_output_cycle * 0x4 + x_reserved * 0x8);
    }
}
/// positioning option code of a servo drive
#[derive(Copy, Clone, Debug, PartialEq, Eq, Structural)]
pub struct Positioning {
    /// bits 0 to 1
    pub relative: u8,
    /// bits 2 to 3
    pub cio: u8,
    /// bits 4 to 5
    pub rro: u8,
    /// bits of a [PositioningMode]
    pub rado: u8,
    /// bits 8 to 11
    pub ip: u8,
    /// reserved bits
    pub reserved: u8,
    /// manufacturer specific bit
    pub manufacturer: bool,
}

impl Positioning {
    /// the bits of the struct read as an integer, each field truncated to its width
    pub open spec fn raw(&self) -> nat {
        (self.relative as nat % 0x4)
            + (self.cio as nat % 0x4) * 0x4
            + (self.rro as nat % 0x4) * 0x10
            + (self.rado as nat % 0x4) * 0x40
            + (self.ip as nat % 0x10) * 0x100
            + (self.reserved as nat % 0x8) * 0x1000
            + (if self.manufacturer { 1nat } else { 0nat }) * 0x8000
    }

    /// every field fits in its width
    pub open spec fn wf(&self) -> bool {
        self.relative < 0x4
        && self.cio < 0x4
        && self.rro < 0x4
        && self.rado < 0x4
        && self.ip < 0x10
        && self.reserved < 0x8
    }

    /// the struct whose bits read as the integer `raw`
    pub open spec fn from_raw(raw: nat) -> Self {
        Positioning {
            relative: (raw % 0x4) as u8,
            cio: (raw / 0x4 % 0x4) as u8,
            rro: (raw / 0x10 % 0x4) as u8,
            rado: (raw / 0x40 % 0x4) as u8,
            ip: (raw / 0x100 % 0x10) as u8,
            reserved: (raw / 0x1000 % 0x8) as u8,
            manufacturer: (raw / 0x8000 % 0x2) == 1,
        }
    }

    /// the bits of the struct read as an integer, each field truncated to its width
    #[verifier::rlimit(60)]
    pub fn to_bits(&self) -> (r: u64)
        ensures
            r == self.raw(),
    {
        let mut r: u64 = (self.relative as u64 % 0x4);
        assert(r < 0x4);
        r = r + (self.cio as u64 % 0x4) * 0x4;
        assert(r < 0x10);
        r = r + (self.rro as u64 % 0x4) * 0x10;
        assert(r < 0x40);
        r = r + (self.rado as u64 % 0x4) * 0x40;
        assert(r < 0x100);
        r = r + (self.ip as u64 % 0x10) * 0x100;
        assert(r < 0x1000);
        r = r + (self.reserved as u64 % 0x8) * 0x1000;
        assert(r < 0x8000);
        r = r + (if self.manufacturer { 1u64 } else { 0u64 }) * 0x8000;
        r
    }

    /// the struct whose bits read as the integer `raw`
    pub fn from_bits(raw: u64) -> (r: Self)
        requires
            raw < 0x10000,
        ensures
            r == Self::from_raw(raw as nat),
            r.wf(),
    {
        Positioning {
            relative: (raw % 0x4) as u8,
            cio: (raw / 0x4 % 0x4) as u8,
            rro: (raw / 0x10 % 0x4) as u8,
            rado: (raw / 0x40 % 0x4) as u8,
            ip: (raw / 0x100 % 0x10) as u8,
            reserved: (raw / 0x1000 % 0x8) as u8,
            manufacturer: (raw / 0x8000 % 0x2) == 1,
        }
    }
}

impl PduData for Positioning {
    const ID: TypeId = TypeId::CUSTOM;
    type Packed = [u8; 2];

    open spec fn pack_defined(len: nat, bitoffset: u8, bitsize: usize, bitordering: Endianness) -> bool {
        true
    }

    open spec fn spec_pack_slice(
        &self,
        data: Seq<u8>,
        bitoffset: u8,
        bitsize: usize,
        bitordering: Endianness,
    ) -> PackingResult<Seq<u8>> {
        bits_pack_slice_result(self.raw(), 2, data, bitoffset, bitsize)
    }

    open spec fn unpack_defined(len: nat, bitoffset: u8, bitsize: usize, bitordering: Endianness) -> bool {
        true
    }

    open spec fn spec_unpack_slice(
        src: Seq<u8>,
        bitoffset: u8,
        bitsize: usize,
        bitordering: Endianness,
    ) -> PackingResult<Self> {
        match bits_unpack_slice_result(src, 2, bitoffset, bitsize) {
            Ok(v) => Ok(Self::from_raw(v)),
            Err(e) => Err(e),
        }
    }

    open spec fn pack_whole_defined(len: nat) -> bool {
        true
    }

    open spec fn spec_pack(&self, data: Seq<u8>) -> PackingResult<Seq<u8>> {
        bits_pack_result(self.raw(), 2, data)
    }

    open spec fn unpack_whole_defined(len: nat) -> bool {
        true
    }

    open spec fn spec_unpack(src: Seq<u8>) -> PackingResult<Self> {
        match bits_unpack_result(src, 2) {
            Ok(v) => Ok(Self::from_raw(v)),
            Err(e) => Err(e),
        }
    }

    fn pack(&self, data: &mut [u8]) -> (r: PackingResult<()>) {
        proof {
            lemma2_to64();
        }
        pack_bits(self.to_bits(), 2, data)
    }

    fn unpack(src: &[u8]) -> (r: PackingResult<Self>) {
        proof {
            lemma2_to64();
            lemma2_to64_rest();
        }
        match unpack_bits(src, 2) {
            Ok(v) => Ok(Self::from_bits(v)),
            Err(e) => Err(e),
        }
    }

    fn pack_slice(
        &self,
        data: &mut [u8],
        bitoffset: u8,
        bitsize: usize,
        bitordering: Endianness,
    ) -> (r: PackingResult<()>) {
        if bitoffset != 0 {
            return Err(PackingError::BadAlignment(bitoffset as usize, "Bit offset must be at 0 on this implementation"));
        }
        if bitsize != 0 {
            return Err(PackingError::BadSize(bitsize, "Bit size must be at 0 on this implementation"));
        }
        self.pack(data)
    }

    fn unpack_slice(src: &[u8], bitoffset: u8, bitsize: usize, bitordering: Endianness) -> (r: PackingResult<Self>) {
        if bitoffset != 0 {
            return Err(PackingError::BadAlignment(bitoffset as usize, "Bit offset must be at 0 on this implementation"));
        }
        if bitsize != 0 {
            return Err(PackingError::BadSize(bitsize, "Bit size must be at 0 on this implementation"));
        }
        Self::unpack(src)
    }
}

/// The bits of a [Positioning] whose fields fit in their widths, read back as a struct, give the
/// same struct; and any integer of its width, turned into a struct and back, is unchanged.
#[verifier::rlimit(60)]
pub proof fn law_positioning_bits_roundtrip(h: Positioning, raw: nat)
    ensures
        h.wf() ==> Positioning::from_raw(h.raw()) == h,
        raw < 0x10000 ==> Positioning::from_raw(raw).raw() == raw,
{
    let x_relative: u64 = (h.relative as u64);
    let x_cio: u64 = (h.cio as u64);
    let x_rro: u64 = (h.rro as u64);
    let x_rado: u64 = (h.rado as u64);
    let x_ip: u64 = (h.ip as u64);
    let x_reserved: u64 = (h.reserved as u64);
    let x_manufacturer: u64 = (if h.manufacturer { 1u64 } else { 0u64 });
    let v: u64 = (x_relative + x_cio * 0x4 + x_rro * 0x10 + x_rado * 0x40 + x_ip * 0x100 + x_reserved * 0x1000 + x_manufacturer * 0x8000) as u64;
    let r: u64 = raw as u64;
    assert({
        &&& !(v == x_relative + x_cio * 0x4 + x_rro * 0x10 + x_rado * 0x40 + x_ip * 0x100 + x_reserved * 0x1000 + x_manufacturer * 0x8000 && x_relative < 0x4 && x_cio < 0x4 && x_rro < 0x4 && x_rado < 0x4 && x_ip < 0x10 && x_reserved < 0x8 && x_manufacturer < 0x2) || (v % 0x4 == x_relative && v / 0x4 % 0x4 == x_cio && v / 0x10 % 0x4 == x_rro && v / 0x40 % 0x4 == x_rado && v / 0x100 % 0x10 == x_ip && v / 0x1000 % 0x8 == x_reserved && v / 0x8000 % 0x2 == x_manufacturer)
        &&& !(r < 0x10000) || ((r % 0x4) + (r / 0x4 % 0x4) * 0x4 + (r / 0x10 % 0x4) * 0x10 + (r / 0x40 % 0x4) * 0x40 + (r / 0x100 % 0x10) * 0x100 + (r / 0x1000 % 0x8) * 0x1000 + (r / 0x8000 % 0x2) * 0x8000 == r)
    }) by (bit_vector);
    if h.wf() {
        assert(h.raw() == x_relative + x_cio * 0x4 + x_rro * 0x10 + x_rado * 0x40 + x_ip * 0x100 + x_reserved * 0x1000 + x_manufacturer * 0x8000);
    }
}
/**
    description of SDO configuring a SyncChannel

    the SDO is assumed to follow the cia402 specifications for syncmanager SDOs
    (ETG.1000.6 table 77)
*/
#[derive(Copy, Clone, Debug, PartialEq, Eq, Structural)]
pub struct SyncChannel {
    /// index of the SDO that configures the SyncChannel
    pub index: u16,
    /// whether this channel is to be read or written by the master, this might be set by the user if the slave supports it.
    pub direction: SyncDirection,
    /// max number of PDO that can be assigned to the SyncChannel
    pub capacity: u8,
}

/// index of the first SDO configuring a sync channel
pub const FIRST_SYNC_CHANNEL: u16 = 0x1c10;
/// index of the first SDO configuring a synchronization
pub const FIRST_SYNCHRONIZATION: u16 = 0x1c30;

impl SyncChannel {
    /// return a field pointing to the nth entry definition of the sync manager channel
    pub fn slot(&self, i: u8) -> (r: Sdo<u16>)
        requires
            i < 255,
        ensures
            r.index == self.index,
            r.sub == SdoPart::Sub((i + 1) as u8),
            r.field.offset == 1 + 2 * i,
            r.field.len == 16,
    {
        Sdo::sub(self.index, i + 1, 1 + 2 * i as usize)
    }

    /// return a field pointing to the number of items set in the sync manager channel
    pub fn len(&self) -> (r: Sdo<u8>)
        ensures
            r.index == self.index,
            r.sub == SdoPart::Sub(0),
            r.field.offset == 0,
            r.field.len == 8,
    {
        Sdo::sub(self.index, 0, 0)
    }

    /// register matching this sync channel sdo
    pub fn register(&self) -> (r: Field<SyncManagerChannel>)
        requires
            FIRST_SYNC_CHANNEL <= self.index < FIRST_SYNC_CHANNEL + 16,
        ensures
            r.offset == 0x0800 + (self.index - FIRST_SYNC_CHANNEL) * SYNC_MANAGER_CHANNEL_SIZE,
            r.len == 8,
    {
        sync_manager_interface().channel((self.index - FIRST_SYNC_CHANNEL) as u8)
    }

    /// sdo setting up the task synchronization to the sync channel
    pub fn sync(&self) -> (r: Synchronization)
        requires
            FIRST_SYNC_CHANNEL <= self.index,
            self.index - FIRST_SYNC_CHANNEL + FIRST_SYNCHRONIZATION <= u16::MAX,
        ensures
            r.index == self.index - FIRST_SYNC_CHANNEL + FIRST_SYNCHRONIZATION,
    {
        Synchronization { index: self.index - FIRST_SYNC_CHANNEL + FIRST_SYNCHRONIZATION }
    }
}

/// ETG.1000.6 table 67: the SDOs configuring the sync channels of a slave
#[derive(Copy, Clone, Debug, PartialEq, Eq, Structural)]
pub struct SyncManager {
    /// index of first SDO configuring a [SyncChannel]
    pub channels: u16,
    /// index of the first SDO configuring a [Synchronization]
    pub syncs: u16,
    /// number of sync channels
    pub len: u8,
}

/// the standard SDOs of the sync manager
pub fn sync_manager() -> (r: SyncManager)
    ensures
        r == (SyncManager { channels: FIRST_SYNC_CHANNEL, syncs: FIRST_SYNCHRONIZATION, len: 32 }),
{
    SyncManager { channels: FIRST_SYNC_CHANNEL, syncs: FIRST_SYNCHRONIZATION, len: 32 }
}

impl SyncManager {
    /// return a description of the sdo controling the given channel, using the recommended channel direction:
    /// even channels are written by the master, odd ones are read
    pub fn channel(&self, i: u8) -> (r: SyncChannel)
        requires
            self.channels + i <= u16::MAX,
        ensures
            r.index == self.channels + i,
            r.direction == if i % 2 == 0 { SyncDirection::Write } else { SyncDirection::Read },
            r.capacity == 254,
    {
        SyncChannel {
            index: self.channels + i as u16,
            direction: if i % 2 == 0 { SyncDirection::Write } else { SyncDirection::Read },
            capacity: 254,
        }
    }

    /// recommended channel for data sending to slave
    pub fn logical_write(&self) -> (r: SyncChannel)
        requires
            self.channels + 2 <= u16::MAX,
        ensures
            r.index == self.channels + 2,
            r.direction == SyncDirection::Write,
            r.capacity == 254,
    {
        self.channel(2)
    }

    /// recommended channel for data reception from slave
    pub fn logical_read(&self) -> (r: SyncChannel)
        requires
            self.channels + 3 <= u16::MAX,
        ensures
            r.index == self.channels + 3,
            r.direction == SyncDirection::Read,
            r.capacity == 254,
    {
        self.channel(3)
    }
}

/**
    sync manager synchronization object

    ETG 1020 table 86 and 87 - `0x1C32` or `0x1C33`

    If the matching sync channel is not available, the SDO does not exist.
*/
#[derive(Copy, Clone, Debug, PartialEq, Eq, Structural)]
pub struct Synchronization {
    /// index of the SDO
    pub index: u16,
}

impl Synchronization {
    /// number of parameters
    pub fn parameters(&self) -> (r: Sdo<u8>)
        ensures
            r.index == self.index && r.sub == SdoPart::Sub(0) && r.field.offset == 0 && r.field.len == 8,
    {
        Sdo::sub(self.index, 0, 0)
    }

    /// synchronization mode, a code of synchronization type
    pub fn sync_mode(&self) -> (r: Sdo<u16>)
        ensures
            r.index == self.index && r.sub == SdoPart::Sub(1) && r.field.offset == 8 && r.field.len == 16,
    {
        Sdo::sub(self.index, 1, 8)
    }

    /// cycle time in ns
    pub fn cycle(&self) -> (r: Sdo<u32>)
        ensures
            r.index == self.index && r.sub == SdoPart::Sub(2) && r.field.offset == 3 * 8 && r.field.len == 32,
    {
        Sdo::sub(self.index, 2, 3 * 8)
    }

    /// time between related event and the associated action (outputs valid hardware) in ns
    pub fn shift(&self) -> (r: Sdo<u32>)
        ensures
            r.index == self.index && r.sub == SdoPart::Sub(3) && r.field.offset == 7 * 8 && r.field.len == 32,
    {
        Sdo::sub(self.index, 3, 7 * 8)
    }

    /// minimum cycle time supported by the slave (maximum duration time of the local cycle) in ns
    pub fn min_cycle_time(&self) -> (r: Sdo<u32>)
        ensures
            r.index == self.index && r.sub == SdoPart::Sub(5) && r.field.offset == 13 * 8 && r.field.len == 32,
    {
        Sdo::sub(self.index, 5, 13 * 8)
    }

    /// time needed by the application controller to copy the process data in ns
    pub fn calc_copy_time(&self) -> (r: Sdo<u32>)
        ensures
            r.index == self.index && r.sub == SdoPart::Sub(6) && r.field.offset == 17 * 8 && r.field.len == 32,
    {
        Sdo::sub(self.index, 6, 17 * 8)
    }

    /// minimum hardware delay time of the slave in ns
    pub fn min_delay_time(&self) -> (r: Sdo<u32>)
        ensures
            r.index == self.index && r.sub == SdoPart::Sub(7) && r.field.offset == 21 * 8 && r.field.len == 32,
    {
        Sdo::sub(self.index, 7, 21 * 8)
    }

    /// hardware delay time of the slave in ns
    pub fn delay_time(&self) -> (r: Sdo<u32>)
        ensures
            r.index == self.index && r.sub == SdoPart::Sub(9) && r.field.offset == 27 * 8 && r.field.len == 32,
    {
        Sdo::sub(self.index, 9, 27 * 8)
    }

    /// time between two Sync0 signals if fixed Sync0 Cycle Time is needed by the application
    pub fn sync0_cycle_time(&self) -> (r: Sdo<u32>)
        ensures
            r.index == self.index && r.sub == SdoPart::Sub(10) && r.field.offset == 31 * 8 && r.field.len == 32,
    {
        Sdo::sub(self.index, 10, 31 * 8)
    }

    /// counter of missed sync manager events
    pub fn counter_sm_missed(&self) -> (r: Sdo<u16>)
        ensures
            r.index == self.index && r.sub == SdoPart::Sub(11) && r.field.offset == 35 * 8 && r.field.len == 16,
    {
        Sdo::sub(self.index, 11, 35 * 8)
    }

    /// counter of missed cycles
    pub fn counter_cycle_missed(&self) -> (r: Sdo<u16>)
        ensures
            r.index == self.index && r.sub == SdoPart::Sub(12) && r.field.offset == 37 * 8 && r.field.len == 16,
    {
        Sdo::sub(self.index, 12, 37 * 8)
    }

    /// suported sync modes
    pub fn supported_modes(&self) -> (r: Sdo<SyncModes>)
        ensures
            r.index == self.index && r.sub == SdoPart::Sub(4) && r.field.offset == 11 * 8 && r.field.len == 16,
    {
        Sdo::sub(self.index, 4, 11 * 8)
    }

    /// control of the local time measurement
    pub fn get_cycle_time(&self) -> (r: Sdo<SyncCycleControl>)
        ensures
            r.index == self.index && r.sub == SdoPart::Sub(8) && r.field.offset == 25 * 8 && r.field.len == 16,
    {
        Sdo::sub(self.index, 8, 25 * 8)
    }

    /// counter of shift times too short
    pub fn counter_shift_missed(&self) -> (r: Sdo<u16>)
        ensures
            r.index == self.index && r.sub == SdoPart::Sub(13) && r.field.offset == 39 * 8 && r.field.len == 16,
    {
        Sdo::sub(self.index, 13, 39 * 8)
    }

    /// counter of RxPDO toggle failures
    pub fn counter_toggle_failure(&self) -> (r: Sdo<u16>)
        ensures
            r.index == self.index && r.sub == SdoPart::Sub(14) && r.field.offset == 41 * 8 && r.field.len == 16,
    {
        Sdo::sub(self.index, 14, 41 * 8)
    }

    /// minimum cycle distance in ns
    pub fn min_cycle_distance(&self) -> (r: Sdo<u32>)
        ensures
            r.index == self.index && r.sub == SdoPart::Sub(15) && r.field.offset == 43 * 8 && r.field.len == 32,
    {
        Sdo::sub(self.index, 15, 43 * 8)
    }

    /// maximum cycle distance in ns
    pub fn max_cycle_distance(&self) -> (r: Sdo<u32>)
        ensures
            r.index == self.index && r.sub == SdoPart::Sub(16) && r.field.offset == 47 * 8 && r.field.len == 32,
    {
        Sdo::sub(self.index, 16, 47 * 8)
    }

    /// minimum SM SYNC distance in ns
    pub fn min_sm_sync_distance(&self) -> (r: Sdo<u32>)
        ensures
            r.index == self.index && r.sub == SdoPart::Sub(17) && r.field.offset == 51 * 8 && r.field.len == 32,
    {
        Sdo::sub(self.index, 17, 51 * 8)
    }

    /// maximum SM SYNC distance in ns
    pub fn max_sm_sync_distance(&self) -> (r: Sdo<u32>)
        ensures
            r.index == self.index && r.sub == SdoPart::Sub(18) && r.field.offset == 55 * 8 && r.field.len == 32,
    {
        Sdo::sub(self.index, 18, 55 * 8)
    }

    /// synchronization error
    pub fn sync_error(&self) -> (r: Sdo<bool>)
        ensures
            r.index == self.index && r.sub == SdoPart::Sub(32) && r.field.offset == 64 * 8 && r.field.len == 8,
    {
        Sdo::sub(self.index, 32, 64 * 8)
    }
}

impl DeviceType {
    /// kind of drive of the device
    pub fn drive(&self) -> (r: DriveType)
        ensures
            r == DriveType::from_raw(self.ty as nat),
    {
        DriveType::from_bits(self.ty as u64)
    }
}

/**
    positioning direction of a servo drive (ETG.6010 table 78)

    | negative | positive | effect |
    |----------|----------|--------|
    |     0    |    0     | Normal positioning similar to linear axis, wrapping at the position range limits
    |     0    |    1     | Positioning only in negative direction
    |     1    |    0     | Positioning only in positive direction
    |     1    |    1     | Positioning with the shortest way to the target position
*/
#[derive(Copy, Clone, Debug, PartialEq, Eq, Structural)]
pub struct PositioningMode {
    /// bit 0
    pub closest_negative: bool,
    /// bit 1
    pub closest_positive: bool,
}

impl Positioning {
    /// positioning direction
    pub fn rado_mode(&self) -> (r: PositioningMode)
        ensures
            r.closest_negative == (self.rado % 2 == 1),
            r.closest_positive == (self.rado / 2 % 2 == 1),
    {
        PositioningMode { closest_negative: self.rado % 2 == 1, closest_positive: self.rado / 2 % 2 == 1 }
    }
}

/// SDOs holding the limits of a position
pub struct PositionLimits {
    /// minimum position
    pub min: Sdo<i32>,
    /// maximum position
    pub max: Sdo<i32>,
}

} // verus!
