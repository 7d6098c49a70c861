/*!
    structs for the registers in a standard slave's RAM, and the fields locating them. This should be used instead of any hardcoded register value.

    Some registers are partially redundant, this is because we can use some field pointing to a big struct and other fields pointing to only parts of the same struct.
*/
use vstd::prelude::*;
use vstd::arithmetic::power2::*;
use vstd::arithmetic::power2::{lemma2_to64, lemma2_to64_rest};
use crate::data::{
    PduData, Storage, TypeId, Endianness, PackingError, PackingResult, Field, BitField, bit,
    bits_pack_result, bits_unpack_result, bits_pack_slice_result, bits_unpack_slice_result,
    pack_bits, unpack_bits,
};
use crate::numbers::{le_bytes, le_value};

verus! {

/**
    the current operation state on one device.

    This is the enum version, useful when communicating with one slave only

    Except [Self::Bootstrap], changing to any mode can be requested from any upper mode or from the preceding one.

    ETG.1000.6 table 9
*/
#[derive(Copy, Clone, Debug, PartialEq, Eq, Structural)]
pub enum AlState {
    /// Transitional state meaning the slave is booting up and ready for nothing yet, it cannot be requested
    Bootstrap,
    /// The init mode allows to set many communication registers, like the salve address, the mailbox setup, etc.
    Init,
    /// the pre operational mode allows mailbox communication, which is mendatory to configure some slaves before realtime operations
    PreOperational,
    /// realtime operations running, except that commands sent to the slaves via its mapping will not be executed
    SafeOperational,
    /// realtime operations running, the master has full access to the slave's effector functions
    Operational,
}

/// code of a [AlState] on the wire
pub open spec fn al_state_code(v: AlState) -> u8 {
    match v {
        AlState::Bootstrap => 3,
        AlState::Init => 1,
        AlState::PreOperational => 2,
        AlState::SafeOperational => 4,
        AlState::Operational => 8,
    }
}

/// the [AlState] of a code on the wire, if any
pub open spec fn al_state_of_code(code: u8) -> Option<AlState> {
    match code {
        3 => Some(AlState::Bootstrap),
        1 => Some(AlState::Init),
        2 => Some(AlState::PreOperational),
        4 => Some(AlState::SafeOperational),
        8 => Some(AlState::Operational),
        _ => None,
    }
}

impl AlState {
    /// code on the wire
    pub fn code(self) -> (r: u8)
        ensures
            r == al_state_code(self),
    {
        match self {
            AlState::Bootstrap => 3,
            AlState::Init => 1,
            AlState::PreOperational => 2,
            AlState::SafeOperational => 4,
            AlState::Operational => 8,
        }
    }

    /// the variant of a code on the wire, if any
    pub fn from_code(code: u8) -> (r: Option<Self>)
        ensures
            r == al_state_of_code(code),
    {
        match code {
            3 => Some(AlState::Bootstrap),
            1 => Some(AlState::Init),
            2 => Some(AlState::PreOperational),
            4 => Some(AlState::SafeOperational),
            8 => Some(AlState::Operational),
            _ => None,
        }
    }
}

/// Decoding the code of a [AlState] gives back the same variant.
pub proof fn law_al_state_code_roundtrip(v: AlState)
    ensures
        al_state_of_code(al_state_code(v)) == Some(v),
{
}

/**
    The AL state codes on the wire are those of ETG.1000.6: Init 1, PreOperational 2, Bootstrap 3,
    SafeOperational 4, Operational 8. Each requestable state is one bit, the bits growing with the states; a status
    holding a code reports the state of that code, and any other code reports no state.
*/
pub proof fn law_al_state_wire_codes(v: AlState, code: u8)
    ensures
        al_state_code(v) == match v {
            AlState::Init => 1u8,
            AlState::PreOperational => 2u8,
            AlState::Bootstrap => 3u8,
            AlState::SafeOperational => 4u8,
            AlState::Operational => 8u8,
        },
        al_state_code(AlState::Init) == 1,
        al_state_code(AlState::PreOperational) == 2 * al_state_code(AlState::Init),
        al_state_code(AlState::SafeOperational) == 2 * al_state_code(AlState::PreOperational),
        al_state_code(AlState::Operational) == 2 * al_state_code(AlState::SafeOperational),
        al_state_code(AlState::Bootstrap) == al_state_code(AlState::Init) + al_state_code(AlState::PreOperational),
        (al_state_of_code(code) == Some(v)) <==> (code == al_state_code(v)),
        al_state_of_code(code) is None <==> !(code == 1 || code == 2 || code == 3 || code == 4 || code == 8),
{
}
/**
	gather the current operation states on several devices, this struct does not provide any way to know which slave is in which state

	This is the bitfield version, useful when communicating with multiple slaves (broadcast PDUs). Only its 4 first bits are meaningful.

    ETG.1000.6 table 9
*/
#[derive(Copy, Clone, Debug, PartialEq, Eq, Structural)]
pub struct AlMixedState {
    /// one slave at least is in [AlState::Init]
    pub init: bool,
    /// one slave at least is in [AlState::PreOperational]
    pub pre_operational: bool,
    /// one slave at least is in [AlState::SafeOperational]
    pub safe_operational: bool,
    /// one slave at least is in [AlState::Operational]
    pub operational: bool,
    /// bits beyond the state, always zero in a register
    pub padding: u8,
}

impl AlMixedState {
    /// the bits of the struct read as an integer, each field truncated to its width
    pub open spec fn raw(&self) -> nat {
        (if self.init { 1nat } else { 0nat })
            + (if self.pre_operational { 1nat } else { 0nat }) * 0x2
            + (if self.safe_operational { 1nat } else { 0nat }) * 0x4
            + (if self.operational { 1nat } else { 0nat }) * 0x8
            + (self.padding as nat % 0x10) * 0x10
    }

    /// every field fits in its width
    pub open spec fn wf(&self) -> bool {
        self.padding < 0x10
    }

    /// the struct whose bits read as the integer `raw`
    pub open spec fn from_raw(raw: nat) -> Self {
        AlMixedState {
            init: (raw % 0x2) == 1,
            pre_operational: (raw / 0x2 % 0x2) == 1,
            safe_operational: (raw / 0x4 % 0x2) == 1,
            operational: (raw / 0x8 % 0x2) == 1,
            padding: (raw / 0x10 % 0x10) as u8,
        }
    }

    /// the bits of the struct read as an integer, each field truncated to its width
    pub fn to_bits(&self) -> (r: u64)
        ensures
            r == self.raw(),
    {
        let mut r: u64 = (if self.init { 1u64 } else { 0u64 });
        assert(r < 0x2);
        r = r + (if self.pre_operational { 1u64 } else { 0u64 }) * 0x2;
        assert(r < 0x4);
        r = r + (if self.safe_operational { 1u64 } else { 0u64 }) * 0x4;
        assert(r < 0x8);
        r = r + (if self.operational { 1u64 } else { 0u64 }) * 0x8;
        assert(r < 0x10);
        r = r + (self.padding as u64 % 0x10) * 0x10;
        r
    }

    /// the struct whose bits read as the integer `raw`
    pub fn from_bits(raw: u64) -> (r: Self)
        requires
            raw < 0x100,
        ensures
            r == Self::from_raw(raw as nat),
            r.wf(),
    {
        AlMixedState {
            init: (raw % 0x2) == 1,
            pre_operational: (raw / 0x2 % 0x2) == 1,
            safe_operational: (raw / 0x4 % 0x2) == 1,
            operational: (raw / 0x8 % 0x2) == 1,
            padding: (raw / 0x10 % 0x10) as u8,
        }
    }
}

impl PduData for AlMixedState {
    const ID: TypeId = TypeId::CUSTOM;
    type Packed = [u8; 1];

    open spec fn pack_defined(len: nat, bitoffset: u8, bitsize: usize, bitordering: Endianness) -> bool {
        true
    }

    open spec fn spec_pack_slice(
        &self,
        data: Seq<u8>,
        bitoffset: u8,
        bitsize: usize,
        bitordering: Endianness,
    ) -> PackingResult<Seq<u8>> {
        bits_pack_slice_result(self.raw(), 1, data, bitoffset, bitsize)
    }

    open spec fn unpack_defined(len: nat, bitoffset: u8, bitsize: usize, bitordering: Endianness) -> bool {
        true
    }

    open spec fn spec_unpack_slice(
        src: Seq<u8>,
        bitoffset: u8,
        bitsize: usize,
        bitordering: Endianness,
    ) -> PackingResult<Self> {
        match bits_unpack_slice_result(src, 1, bitoffset, bitsize) {
            Ok(v) => Ok(Self::from_raw(v)),
            Err(e) => Err(e),
        }
    }

    open spec fn pack_whole_defined(len: nat) -> bool {
        true
    }

    open spec fn spec_pack(&self, data: Seq<u8>) -> PackingResult<Seq<u8>> {
        bits_pack_result(self.raw(), 1, data)
    }

    open spec fn unpack_whole_defined(len: nat) -> bool {
        true
    }

    open spec fn spec_unpack(src: Seq<u8>) -> PackingResult<Self> {
        match bits_unpack_result(src, 1) {
            Ok(v) => Ok(Self::from_raw(v)),
            Err(e) => Err(e),
        }
    }

    fn pack(&self, data: &mut [u8]) -> (r: PackingResult<()>) {
        proof {
            lemma2_to64();
        }
        pack_bits(self.to_bits(), 1, data)
    }

    fn unpack(src: &[u8]) -> (r: PackingResult<Self>) {
        proof {
            lemma2_to64();
            lemma2_to64_rest();
        }
        match unpack_bits(src, 1) {
            Ok(v) => Ok(Self::from_bits(v)),
            Err(e) => Err(e),
        }
    }

    fn pack_slice(
        &self,
        data: &mut [u8],
        bitoffset: u8,
        bitsize: usize,
        bitordering: Endianness,
    ) -> (r: PackingResult<()>) {
        if bitoffset != 0 {
            return Err(PackingError::BadAlignment(bitoffset as usize, "Bit offset must be at 0 on this implementation"));
        }
        if bitsize != 0 {
            return Err(PackingError::BadSize(bitsize, "Bit size must be at 0 on this implementation"));
        }
        self.pack(data)
    }

    fn unpack_slice(src: &[u8], bitoffset: u8, bitsize: usize, bitordering: Endianness) -> (r: PackingResult<Self>) {
        if bitoffset != 0 {
            return Err(PackingError::BadAlignment(bitoffset as usize, "Bit offset must be at 0 on this implementation"));
        }
        if bitsize != 0 {
            return Err(PackingError::BadSize(bitsize, "Bit size must be at 0 on this implementation"));
        }
        Self::unpack(src)
    }
}

/// The bits of a [AlMixedState] whose fields fit in their widths, read back as a struct, give the
/// same struct; and any integer of its width, turned into a struct and back, is unchanged.
pub proof fn law_al_mixed_state_bits_roundtrip(h: AlMixedState, raw: nat)
    ensures
        h.wf() ==> AlMixedState::from_raw(h.raw()) == h,
        raw < 0x100 ==> AlMixedState::from_raw(raw).raw() == raw,
{
    let x_init: u64 = (if h.init { 1u64 } else { 0u64 });
    let x_pre_operational: u64 = (if h.pre_operational { 1u64 } else { 0u64 });
    let x_safe_operational: u64 = (if h.safe_operational { 1u64 } else { 0u64 });
    let x_operational: u64 = (if h.operational { 1u64 } else { 0u64 });
    let x_padding: u64 = (h.padding as u64);
    let v: u64 = (x_init + x_pre_operational * 0x2 + x_safe_operational * 0x4 + x_operational * 0x8 + x_padding * 0x10) as u64;
    let r: u64 = raw as u64;
    assert({
        &&& !(v == x_init + x_pre_operational * 0x2 + x_safe_operational * 0x4 + x_operational * 0x8 + x_padding * 0x10 && x_init < 0x2 && x_pre_operational < 0x2 && x_safe_operational < 0x2 && x_operational < 0x2 && x_padding < 0x10) || (v % 0x2 == x_init && v / 0x2 % 0x2 == x_pre_operational && v / 0x4 % 0x2 == x_safe_operational && v / 0x8 % 0x2 == x_operational && v / 0x10 % 0x10 == x_padding)
        &&& !(r < 0x100) || ((r % 0x2) + (r / 0x2 % 0x2) * 0x2 + (r / 0x4 % 0x2) * 0x4 + (r / 0x8 % 0x2) * 0x8 + (r / 0x10 % 0x10) * 0x10 == r)
    }) by (bit_vector);
    if h.wf() {
        assert(h.raw() == x_init + x_pre_operational * 0x2 + x_safe_operational * 0x4 + x_operational * 0x8 + x_padding * 0x10);
    }
}

impl AlMixedState {
    /// the mixed state holding only the given state
    pub fn from_state(state: AlState) -> (r: Self)
        ensures
            r.raw() == al_state_code(state),
    {
        Self::from_bits(state.code() as u64)
    }

    /// the only state in the mix, if the mix holds exactly one state
    pub fn to_state(&self) -> (r: Result<AlState, &'static str>)
        ensures
            match al_state_of_code((self.raw() % 16) as u8) {
                Some(state) => r == Ok::<AlState, &'static str>(state),
                None => r == Err::<AlState, &'static str>("cannot unwrap when not only 1 state in mix"),
            },
    {
        match AlState::from_code((self.to_bits() % 16) as u8) {
            Some(state) => Ok(state),
            None => Err("cannot unwrap when not only 1 state in mix"),
        }
    }
}

/// A state made a mix holds this only state.
pub proof fn law_al_state_mix_roundtrip(state: AlState)
    ensures
        al_state_of_code((AlMixedState::from_raw(al_state_code(state) as nat).raw() % 16) as u8) == Some(state),
{
    law_al_mixed_state_bits_roundtrip(AlMixedState::from_raw(al_state_code(state) as nat), al_state_code(state) as nat);
}

/// ETG.1000.6 table 9
#[derive(Copy, Clone, Debug, PartialEq, Eq, Structural)]
pub struct AlControlRequest {
    /// requested state of communication, bits of an [AlMixedState]
    pub state: u8,
    /// if true, parameter change of the [AlStatus] `changed` will be reset
    pub ack: bool,
    /// request of id instead of error code in the AL error register
    pub request_id: bool,
    /// reserved bits
    pub reserved: u8,
}

impl AlControlRequest {
    /// the bits of the struct read as an integer, each field truncated to its width
    pub open spec fn raw(&self) -> nat {
        (self.state as nat % 0x10)
            + (if self.ack { 1nat } else { 0nat }) * 0x10
            + (if self.request_id { 1nat } else { 0nat }) * 0x20
            + (self.reserved as nat % 0x4) * 0x40
    }

    /// every field fits in its width
    pub open spec fn wf(&self) -> bool {
        self.state < 0x10
        && self.reserved < 0x4
    }

    /// the struct whose bits read as the integer `raw`
    pub open spec fn from_raw(raw: nat) -> Self {
        AlControlRequest {
            state: (raw % 0x10) as u8,
            ack: (raw / 0x10 % 0x2) == 1,
            request_id: (raw / 0x20 % 0x2) == 1,
            reserved: (raw / 0x40 % 0x4) as u8,
        }
    }

    /// the bits of the struct read as an integer, each field truncated to its width
    pub fn to_bits(&self) -> (r: u64)
        ensures
            r == self.raw(),
    {
        (self.state as u64 % 0x10)
            + (if self.ack { 1u64 } else { 0u64 }) * 0x10
            + (if self.request_id { 1u64 } else { 0u64 }) * 0x20
            + (self.reserved as u64 % 0x4) * 0x40
    }

    /// the struct whose bits read as the integer `raw`
    pub fn from_bits(raw: u64) -> (r: Self)
        requires
            raw < 0x100,
        ensures
            r == Self::from_raw(raw as nat),
            r.wf(),
    {
        AlControlRequest {
            state: (raw % 0x10) as u8,
            ack: (raw / 0x10 % 0x2) == 1,
            request_id: (raw / 0x20 % 0x2) == 1,
            reserved: (raw / 0x40 % 0x4) as u8,
        }
    }
}

impl PduData for AlControlRequest {
    const ID: TypeId = TypeId::CUSTOM;
    type Packed = [u8; 1];

    open spec fn pack_defined(len: nat, bitoffset: u8, bitsize: usize, bitordering: Endianness) -> bool {
        true
    }

    open spec fn spec_pack_slice(
        &self,
        data: Seq<u8>,
        bitoffset: u8,
        bitsize: usize,
        bitordering: Endianness,
    ) -> PackingResult<Seq<u8>> {
        bits_pack_slice_result(self.raw(), 1, data, bitoffset, bitsize)
    }

    open spec fn unpack_defined(len: nat, bitoffset: u8, bitsize: usize, bitordering: Endianness) -> bool {
        true
    }

    open spec fn spec_unpack_slice(
        src: Seq<u8>,
        bitoffset: u8,
        bitsize: usize,
        bitordering: Endianness,
    ) -> PackingResult<Self> {
        match bits_unpack_slice_result(src, 1, bitoffset, bitsize) {
            Ok(v) => Ok(Self::from_raw(v)),
            Err(e) => Err(e),
        }
    }

    open spec fn pack_whole_defined(len: nat) -> bool {
        true
    }

    open spec fn spec_pack(&self, data: Seq<u8>) -> PackingResult<Seq<u8>> {
        bits_pack_result(self.raw(), 1, data)
    }

    open spec fn unpack_whole_defined(len: nat) -> bool {
        true
    }

    open spec fn spec_unpack(src: Seq<u8>) -> PackingResult<Self> {
        match bits_unpack_result(src, 1) {
            Ok(v) => Ok(Self::from_raw(v)),
            Err(e) => Err(e),
        }
    }

    fn pack(&self, data: &mut [u8]) -> (r: PackingResult<()>) {
        proof {
            lemma2_to64();
        }
        pack_bits(self.to_bits(), 1, data)
    }

    fn unpack(src: &[u8]) -> (r: PackingResult<Self>) {
        proof {
            lemma2_to64();
            lemma2_to64_rest();
        }
        match unpack_bits(src, 1) {
            Ok(v) => Ok(Self::from_bits(v)),
            Err(e) => Err(e),
        }
    }

    fn pack_slice(
        &self,
        data: &mut [u8],
        bitoffset: u8,
        bitsize: usize,
        bitordering: Endianness,
    ) -> (r: PackingResult<()>) {
        if bitoffset != 0 {
            return Err(PackingError::BadAlignment(bitoffset as usize, "Bit offset must be at 0 on this implementation"));
        }
        if bitsize != 0 {
            return Err(PackingError::BadSize(bitsize, "Bit size must be at 0 on this implementation"));
        }
        self.pack(data)
    }

    fn unpack_slice(src: &[u8], bitoffset: u8, bitsize: usize, bitordering: Endianness) -> (r: PackingResult<Self>) {
        if bitoffset != 0 {
            return Err(PackingError::BadAlignment(bitoffset as usize, "Bit offset must be at 0 on this implementation"));
        }
        if bitsize != 0 {
            return Err(PackingError::BadSize(bitsize, "Bit size must be at 0 on this implementation"));
        }
        Self::unpack(src)
    }
}

/// The bits of a [AlControlRequest] whose fields fit in their widths, read back as a struct, give the
/// same struct; and any integer of its width, turned into a struct and back, is unchanged.
pub proof fn law_al_control_request_bits_roundtrip(h: AlControlRequest, raw: nat)
    ensures
        h.wf() ==> AlControlRequest::from_raw(h.raw()) == h,
        raw < 0x100 ==> AlControlRequest::from_raw(raw).raw() == raw,
{
    let x_state: u64 = (h.state as u64);
    let x_ack: u64 = (if h.ack { 1u64 } else { 0u64 });
    let x_request_id: u64 = (if h.request_id { 1u64 } else { 0u64 });
    let x_reserved: u64 = (h.reserved as u64);
    let v: u64 = (x_state + x_ack * 0x10 + x_request_id * 0x20 + x_reserved * 0x40) as u64;
    let r: u64 = raw as u64;
    assert({
        &&& !(v == x_state + x_ack * 0x10 + x_request_id * 0x20 + x_reserved * 0x40 && x_state < 0x10 && x_ack < 0x2 && x_request_id < 0x2 && x_reserved < 0x4) || (v % 0x10 == x_state && v / 0x10 % 0x2 == x_ack && v / 0x20 % 0x2 == x_request_id && v / 0x40 % 0x4 == x_reserved)
        &&& !(r < 0x100) || ((r % 0x10) + (r / 0x10 % 0x2) * 0x10 + (r / 0x20 % 0x2) * 0x20 + (r / 0x40 % 0x4) * 0x40 == r)
    }) by (bit_vector);
    if h.wf() {
        assert(h.raw() == x_state + x_ack * 0x10 + x_request_id * 0x20 + x_reserved * 0x40);
    }
}
/// ETG.1000.6 table 10
#[derive(Copy, Clone, Debug, PartialEq, Eq, Structural)]
pub struct AlControlResponse {
    /// formerly requested state of communication, bits of an [AlMixedState]
    pub state: u8,
    /// true if the state transition was not successful
    pub error: bool,
    /// if true, ID value is present in R6
    pub id: bool,
    /// reserved bits
    pub reserved: u8,
}

impl AlControlResponse {
    /// the bits of the struct read as an integer, each field truncated to its width
    pub open spec fn raw(&self) -> nat {
        (self.state as nat % 0x10)
            + (if self.error { 1nat } else { 0nat }) * 0x10
            + (if self.id { 1nat } else { 0nat }) * 0x20
            + (self.reserved as nat % 0x4) * 0x40
    }

    /// every field fits in its width
    pub open spec fn wf(&self) -> bool {
        self.state < 0x10
        && self.reserved < 0x4
    }

    /// the struct whose bits read as the integer `raw`
    pub open spec fn from_raw(raw: nat) -> Self {
        AlControlResponse {
            state: (raw % 0x10) as u8,
            error: (raw / 0x10 % 0x2) == 1,
            id: (raw / 0x20 % 0x2) == 1,
            reserved: (raw / 0x40 % 0x4) as u8,
        }
    }

    /// the bits of the struct read as an integer, each field truncated to its width
    pub fn to_bits(&self) -> (r: u64)
        ensures
            r == self.raw(),
    {
        (self.state as u64 % 0x10)
            + (if self.error { 1u64 } else { 0u64 }) * 0x10
            + (if self.id { 1u64 } else { 0u64 }) * 0x20
            + (self.reserved as u64 % 0x4) * 0x40
    }

    /// the struct whose bits read as the integer `raw`
    pub fn from_bits(raw: u64) -> (r: Self)
        requires
            raw < 0x100,
        ensures
            r == Self::from_raw(raw as nat),
            r.wf(),
    {
        AlControlResponse {
            state: (raw % 0x10) as u8,
            error: (raw / 0x10 % 0x2) == 1,
            id: (raw / 0x20 % 0x2) == 1,
            reserved: (raw / 0x40 % 0x4) as u8,
        }
    }
}

impl PduData for AlControlResponse {
    const ID: TypeId = TypeId::CUSTOM;
    type Packed = [u8; 1];

    open spec fn pack_defined(len: nat, bitoffset: u8, bitsize: usize, bitordering: Endianness) -> bool {
        true
    }

    open spec fn spec_pack_slice(
        &self,
        data: Seq<u8>,
        bitoffset: u8,
        bitsize: usize,
        bitordering: Endianness,
    ) -> PackingResult<Seq<u8>> {
        bits_pack_slice_result(self.raw(), 1, data, bitoffset, bitsize)
    }

    open spec fn unpack_defined(len: nat, bitoffset: u8, bitsize: usize, bitordering: Endianness) -> bool {
        true
    }

    open spec fn spec_unpack_slice(
        src: Seq<u8>,
        bitoffset: u8,
        bitsize: usize,
        bitordering: Endianness,
    ) -> PackingResult<Self> {
        match bits_unpack_slice_result(src, 1, bitoffset, bitsize) {
            Ok(v) => Ok(Self::from_raw(v)),
            Err(e) => Err(e),
        }
    }

    open spec fn pack_whole_defined(len: nat) -> bool {
        true
    }

    open spec fn spec_pack(&self, data: Seq<u8>) -> PackingResult<Seq<u8>> {
        bits_pack_result(self.raw(), 1, data)
    }

    open spec fn unpack_whole_defined(len: nat) -> bool {
        true
    }

    open spec fn spec_unpack(src: Seq<u8>) -> PackingResult<Self> {
        match bits_unpack_result(src, 1) {
            Ok(v) => Ok(Self::from_raw(v)),
            Err(e) => Err(e),
        }
    }

    fn pack(&self, data: &mut [u8]) -> (r: PackingResult<()>) {
        proof {
            lemma2_to64();
        }
        pack_bits(self.to_bits(), 1, data)
    }

    fn unpack(src: &[u8]) -> (r: PackingResult<Self>) {
        proof {
            lemma2_to64();
            lemma2_to64_rest();
        }
        match unpack_bits(src, 1) {
            Ok(v) => Ok(Self::from_bits(v)),
            Err(e) => Err(e),
        }
    }

    fn pack_slice(
        &self,
        data: &mut [u8],
        bitoffset: u8,
        bitsize: usize,
        bitordering: Endianness,
    ) -> (r: PackingResult<()>) {
        if bitoffset != 0 {
            return Err(PackingError::BadAlignment(bitoffset as usize, "Bit offset must be at 0 on this implementation"));
        }
        if bitsize != 0 {
            return Err(PackingError::BadSize(bitsize, "Bit size must be at 0 on this implementation"));
        }
        self.pack(data)
    }

    fn unpack_slice(src: &[u8], bitoffset: u8, bitsize: usize, bitordering: Endianness) -> (r: PackingResult<Self>) {
        if bitoffset != 0 {
            return Err(PackingError::BadAlignment(bitoffset as usize, "Bit offset must be at 0 on this implementation"));
        }
        if bitsize != 0 {
            return Err(PackingError::BadSize(bitsize, "Bit size must be at 0 on this implementation"));
        }
        Self::unpack(src)
    }
}

/// The bits of a [AlControlResponse] whose fields fit in their widths, read back as a struct, give the
/// same struct; and any integer of its width, turned into a struct and back, is unchanged.
pub proof fn law_al_control_response_bits_roundtrip(h: AlControlResponse, raw: nat)
    ensures
        h.wf() ==> AlControlResponse::from_raw(h.raw()) == h,
        raw < 0x100 ==> AlControlResponse::from_raw(raw).raw() == raw,
{
    let x_state: u64 = (h.state as u64);
    let x_error: u64 = (if h.error { 1u64 } else { 0u64 });
    let x_id: u64 = (if h.id { 1u64 } else { 0u64 });
    let x_reserved: u64 = (h.reserved as u64);
    let v: u64 = (x_state + x_error * 0x10 + x_id * 0x20 + x_reserved * 0x40) as u64;
    let r: u64 = raw as u64;
    assert({
        &&& !(v == x_state + x_error * 0x10 + x_id * 0x20 + x_reserved * 0x40 && x_state < 0x10 && x_error < 0x2 && x_id < 0x2 && x_reserved < 0x4) || (v % 0x10 == x_state && v / 0x10 % 0x2 == x_error && v / 0x20 % 0x2 == x_id && v / 0x40 % 0x4 == x_reserved)
        &&& !(r < 0x100) || ((r % 0x10) + (r / 0x10 % 0x2) * 0x10 + (r / 0x20 % 0x2) * 0x20 + (r / 0x40 % 0x4) * 0x40 == r)
    }) by (bit_vector);
    if h.wf() {
        assert(h.raw() == x_state + x_error * 0x10 + x_id * 0x20 + x_reserved * 0x40);
    }
}
/// ETG.1000.6 table 12
#[derive(Copy, Clone, Debug, PartialEq, Eq, Structural)]
pub struct AlStatus {
    /// current state of communication, bits of an [AlMixedState]
    pub state: u8,
    /// true if requested by [AlControlRequest] `ack`
    pub changed: bool,
    /// reserved bits
    pub reserved: u8,
}

impl AlStatus {
    /// the bits of the struct read as an integer, each field truncated to its width
    pub open spec fn raw(&self) -> nat {
        (self.state as nat % 0x10)
            + (if self.changed { 1nat } else { 0nat }) * 0x10
            + (self.reserved as nat % 0x8) * 0x20
    }

    /// every field fits in its width
    pub open spec fn wf(&self) -> bool {
        self.state < 0x10
        && self.reserved < 0x8
    }

    /// the struct whose bits read as the integer `raw`
    pub open spec fn from_raw(raw: nat) -> Self {
        AlStatus {
            state: (raw % 0x10) as u8,
            changed: (raw / 0x10 % 0x2) == 1,
            reserved: (raw / 0x20 % 0x8) as u8,
        }
    }

    /// the bits of the struct read as an integer, each field truncated to its width
    pub fn to_bits(&self) -> (r: u64)
        ensures
            r == self.raw(),
    {
        (self.state as u64 % 0x10)
            + (if self.changed { 1u64 } else { 0u64 }) * 0x10
            + (self.reserved as u64 % 0x8) * 0x20
    }

    /// the struct whose bits read as the integer `raw`
    pub fn from_bits(raw: u64) -> (r: Self)
        requires
            raw < 0x100,
        ensures
            r == Self::from_raw(raw as nat),
            r.wf(),
    {
        AlStatus {
            state: (raw % 0x10) as u8,
            changed: (raw / 0x10 % 0x2) == 1,
            reserved: (raw / 0x20 % 0x8) as u8,
        }
    }
}

impl PduData for AlStatus {
    const ID: TypeId = TypeId::CUSTOM;
    type Packed = [u8; 1];

    open spec fn pack_defined(len: nat, bitoffset: u8, bitsize: usize, bitordering: Endianness) -> bool {
        true
    }

    open spec fn spec_pack_slice(
        &self,
        data: Seq<u8>,
        bitoffset: u8,
        bitsize: usize,
        bitordering: Endianness,
    ) -> PackingResult<Seq<u8>> {
        bits_pack_slice_result(self.raw(), 1, data, bitoffset, bitsize)
    }

    open spec fn unpack_defined(len: nat, bitoffset: u8, bitsize: usize, bitordering: Endianness) -> bool {
        true
    }

    open spec fn spec_unpack_slice(
        src: Seq<u8>,
        bitoffset: u8,
        bitsize: usize,
        bitordering: Endianness,
    ) -> PackingResult<Self> {
        match bits_unpack_slice_result(src, 1, bitoffset, bitsize) {
            Ok(v) => Ok(Self::from_raw(v)),
            Err(e) => Err(e),
        }
    }

    open spec fn pack_whole_defined(len: nat) -> bool {
        true
    }

    open spec fn spec_pack(&self, data: Seq<u8>) -> PackingResult<Seq<u8>> {
        bits_pack_result(self.raw(), 1, data)
    }

    open spec fn unpack_whole_defined(len: nat) -> bool {
        true
    }

    open spec fn spec_unpack(src: Seq<u8>) -> PackingResult<Self> {
        match bits_unpack_result(src, 1) {
            Ok(v) => Ok(Self::from_raw(v)),
            Err(e) => Err(e),
        }
    }

    fn pack(&self, data: &mut [u8]) -> (r: PackingResult<()>) {
        proof {
            lemma2_to64();
        }
        pack_bits(self.to_bits(), 1, data)
    }

    fn unpack(src: &[u8]) -> (r: PackingResult<Self>) {
        proof {
            lemma2_to64();
            lemma2_to64_rest();
        }
        match unpack_bits(src, 1) {
            Ok(v) => Ok(Self::from_bits(v)),
            Err(e) => Err(e),
        }
    }

    fn pack_slice(
        &self,
        data: &mut [u8],
        bitoffset: u8,
        bitsize: usize,
        bitordering: Endianness,
    ) -> (r: PackingResult<()>) {
        if bitoffset != 0 {
            return Err(PackingError::BadAlignment(bitoffset as usize, "Bit offset must be at 0 on this implementation"));
        }
        if bitsize != 0 {
            return Err(PackingError::BadSize(bitsize, "Bit size must be at 0 on this implementation"));
        }
        self.pack(data)
    }

    fn unpack_slice(src: &[u8], bitoffset: u8, bitsize: usize, bitordering: Endianness) -> (r: PackingResult<Self>) {
        if bitoffset != 0 {
            return Err(PackingError::BadAlignment(bitoffset as usize, "Bit offset must be at 0 on this implementation"));
        }
        if bitsize != 0 {
            return Err(PackingError::BadSize(bitsize, "Bit size must be at 0 on this implementation"));
        }
        Self::unpack(src)
    }
}

/// The bits of a [AlStatus] whose fields fit in their widths, read back as a struct, give the
/// same struct; and any integer of its width, turned into a struct and back, is unchanged.
pub proof fn law_al_status_bits_roundtrip(h: AlStatus, raw: nat)
    ensures
        h.wf() ==> AlStatus::from_raw(h.raw()) == h,
        raw < 0x100 ==> AlStatus::from_raw(raw).raw() == raw,
{
}
/// ETG.1000.6 table 11: error reported by a slave on a state change
#[derive(Copy, Clone, Debug, PartialEq, Eq, Structural)]
pub enum AlError {
    NoError,
    Unspecified,
    NoMemory,
    InvalidDeviceSetup,
    InvalidStateRequest,
    UnknownStateRequest,
    BootstrapNotSupported,
    NoValidFirmware,
    InvalidMailboxConfigBoot,
    InvalidMailboxConfigPreop,
    InvalidSyncConfig,
    NoInputsAvailable,
    NoValidInputs,
    Synchronization,
    SyncWatchdog,
    InvalidSyncTypes,
    InvalidOutputConfig,
    InvalidInputConfig,
    InvalidWatchdogConfig,
    NeedColdStart,
    NeedInit,
    NeedPreop,
    NeedSafeOp,
    InvalidInputMapping,
    InvalidOutputMapping,
    InconsistentSettings,
    FreeRunNotSupported,
    SyncModeNotSupported,
    FreeRunNeedsBuffer,
    BackgroundWatchdog,
    NoValidIO,
    FatalSync,
    NoSync,
    InvalidDcConfig,
    InvalidLatchConfig,
    PLL,
    DCSyncIO,
    DCSyncTimeout,
    DCInvalidPeriod,
    MailboxAOE,
    MailboxEOE,
    MailboxCOE,
    MailboxFOE,
    MailboxSOE,
    MailboxVOE,
    EepromNoAccess,
    Eeeprom,
    SlaveRestarted,
    DeviceIdentificationUpdated,
    ApplicationAvailable,
    Specific,
}

/// code of a [AlError] on the wire
pub open spec fn al_error_code(v: AlError) -> u16 {
    match v {
        AlError::NoError => 0x0000,
        AlError::Unspecified => 0x0001,
        AlError::NoMemory => 0x0002,
        AlError::InvalidDeviceSetup => 0x0003,
        AlError::InvalidStateRequest => 0x0011,
        AlError::UnknownStateRequest => 0x0012,
        AlError::BootstrapNotSupported => 0x0013,
        AlError::NoValidFirmware => 0x0014,
        AlError::InvalidMailboxConfigBoot => 0x0015,
        AlError::InvalidMailboxConfigPreop => 0x0016,
        AlError::InvalidSyncConfig => 0x0017,
        AlError::NoInputsAvailable => 0x0018,
        AlError::NoValidInputs => 0x0019,
        AlError::Synchronization => 0x001A,
        AlError::SyncWatchdog => 0x001B,
        AlError::InvalidSyncTypes => 0x001C,
        AlError::InvalidOutputConfig => 0x001D,
        AlError::InvalidInputConfig => 0x001E,
        AlError::InvalidWatchdogConfig => 0x001F,
        AlError::NeedColdStart => 0x0020,
        AlError::NeedInit => 0x0021,
        AlError::NeedPreop => 0x0022,
        AlError::NeedSafeOp => 0x0023,
        AlError::InvalidInputMapping => 0x0024,
        AlError::InvalidOutputMapping => 0x0025,
        AlError::InconsistentSettings => 0x0026,
        AlError::FreeRunNotSupported => 0x0027,
        AlError::SyncModeNotSupported => 0x0028,
        AlError::FreeRunNeedsBuffer => 0x0029,
        AlError::BackgroundWatchdog => 0x002A,
        AlError::NoValidIO => 0x002B,
        AlError::FatalSync => 0x002C,
        AlError::NoSync => 0x002D,
        AlError::InvalidDcConfig => 0x0030,
        AlError::InvalidLatchConfig => 0x0031,
        AlError::PLL => 0x0032,
        AlError::DCSyncIO => 0x0033,
        AlError::DCSyncTimeout => 0x0034,
        AlError::DCInvalidPeriod => 0x0035,
        AlError::MailboxAOE => 0x0041,
        AlError::MailboxEOE => 0x0042,
        AlError::MailboxCOE => 0x0043,
        AlError::MailboxFOE => 0x0044,
        AlError::MailboxSOE => 0x0045,
        AlError::MailboxVOE => 0x004F,
        AlError::EepromNoAccess => 0x0050,
        AlError::Eeeprom => 0x0051,
        AlError::SlaveRestarted => 0x0060,
        AlError::DeviceIdentificationUpdated => 0x0061,
        AlError::ApplicationAvailable => 0x00F0,
        AlError::Specific => 0xffff,
    }
}

/// the [AlError] of a code on the wire, if any
pub open spec fn al_error_of_code(code: u16) -> Option<AlError> {
    match code {
        0x0000 => Some(AlError::NoError),
        0x0001 => Some(AlError::Unspecified),
        0x0002 => Some(AlError::NoMemory),
        0x0003 => Some(AlError::InvalidDeviceSetup),
        0x0011 => Some(AlError::InvalidStateRequest),
        0x0012 => Some(AlError::UnknownStateRequest),
        0x0013 => Some(AlError::BootstrapNotSupported),
        0x0014 => Some(AlError::NoValidFirmware),
        0x0015 => Some(AlError::InvalidMailboxConfigBoot),
        0x0016 => Some(AlError::InvalidMailboxConfigPreop),
        0x0017 => Some(AlError::InvalidSyncConfig),
        0x0018 => Some(AlError::NoInputsAvailable),
        0x0019 => Some(AlError::NoValidInputs),
        0x001A => Some(AlError::Synchronization),
        0x001B => Some(AlError::SyncWatchdog),
        0x001C => Some(AlError::InvalidSyncTypes),
        0x001D => Some(AlError::InvalidOutputConfig),
        0x001E => Some(AlError::InvalidInputConfig),
        0x001F => Some(AlError::InvalidWatchdogConfig),
        0x0020 => Some(AlError::NeedColdStart),
        0x0021 => Some(AlError::NeedInit),
        0x0022 => Some(AlError::NeedPreop),
        0x0023 => Some(AlError::NeedSafeOp),
        0x0024 => Some(AlError::InvalidInputMapping),
        0x0025 => Some(AlError::InvalidOutputMapping),
        0x0026 => Some(AlError::InconsistentSettings),
        0x0027 => Some(AlError::FreeRunNotSupported),
        0x0028 => Some(AlError::SyncModeNotSupported),
        0x0029 => Some(AlError::FreeRunNeedsBuffer),
        0x002A => Some(AlError::BackgroundWatchdog),
        0x002B => Some(AlError::NoValidIO),
        0x002C => Some(AlError::FatalSync),
        0x002D => Some(AlError::NoSync),
        0x0030 => Some(AlError::InvalidDcConfig),
        0x0031 => Some(AlError::InvalidLatchConfig),
        0x0032 => Some(AlError::PLL),
        0x0033 => Some(AlError::DCSyncIO),
        0x0034 => Some(AlError::DCSyncTimeout),
        0x0035 => Some(AlError::DCInvalidPeriod),
        0x0041 => Some(AlError::MailboxAOE),
        0x0042 => Some(AlError::MailboxEOE),
        0x0043 => Some(AlError::MailboxCOE),
        0x0044 => Some(AlError::MailboxFOE),
        0x0045 => Some(AlError::MailboxSOE),
        0x004F => Some(AlError::MailboxVOE),
        0x0050 => Some(AlError::EepromNoAccess),
        0x0051 => Some(AlError::Eeeprom),
        0x0060 => Some(AlError::SlaveRestarted),
        0x0061 => Some(AlError::DeviceIdentificationUpdated),
        0x00F0 => Some(AlError::ApplicationAvailable),
        0xffff => Some(AlError::Specific),
        _ => None,
    }
}

impl AlError {
    /// code on the wire
    pub fn code(self) -> (r: u16)
        ensures
            r == al_error_code(self),
    {
        match self {
            AlError::NoError => 0x0000,
            AlError::Unspecified => 0x0001,
            AlError::NoMemory => 0x0002,
            AlError::InvalidDeviceSetup => 0x0003,
            AlError::InvalidStateRequest => 0x0011,
            AlError::UnknownStateRequest => 0x0012,
            AlError::BootstrapNotSupported => 0x0013,
            AlError::NoValidFirmware => 0x0014,
            AlError::InvalidMailboxConfigBoot => 0x0015,
            AlError::InvalidMailboxConfigPreop => 0x0016,
            AlError::InvalidSyncConfig => 0x0017,
            AlError::NoInputsAvailable => 0x0018,
            AlError::NoValidInputs => 0x0019,
            AlError::Synchronization => 0x001A,
            AlError::SyncWatchdog => 0x001B,
            AlError::InvalidSyncTypes => 0x001C,
            AlError::InvalidOutputConfig => 0x001D,
            AlError::InvalidInputConfig => 0x001E,
            AlError::InvalidWatchdogConfig => 0x001F,
            AlError::NeedColdStart => 0x0020,
            AlError::NeedInit => 0x0021,
            AlError::NeedPreop => 0x0022,
            AlError::NeedSafeOp => 0x0023,
            AlError::InvalidInputMapping => 0x0024,
            AlError::InvalidOutputMapping => 0x0025,
            AlError::InconsistentSettings => 0x0026,
            AlError::FreeRunNotSupported => 0x0027,
            AlError::SyncModeNotSupported => 0x0028,
            AlError::FreeRunNeedsBuffer => 0x0029,
            AlError::BackgroundWatchdog => 0x002A,
            AlError::NoValidIO => 0x002B,
            AlError::FatalSync => 0x002C,
            AlError::NoSync => 0x002D,
            AlError::InvalidDcConfig => 0x0030,
            AlError::InvalidLatchConfig => 0x0031,
            AlError::PLL => 0x0032,
            AlError::DCSyncIO => 0x0033,
            AlError::DCSyncTimeout => 0x0034,
            AlError::DCInvalidPeriod => 0x0035,
            AlError::MailboxAOE => 0x0041,
            AlError::MailboxEOE => 0x0042,
            AlError::MailboxCOE => 0x0043,
            AlError::MailboxFOE => 0x0044,
            AlError::MailboxSOE => 0x0045,
            AlError::MailboxVOE => 0x004F,
            AlError::EepromNoAccess => 0x0050,
            AlError::Eeeprom => 0x0051,
            AlError::SlaveRestarted => 0x0060,
            AlError::DeviceIdentificationUpdated => 0x0061,
            AlError::ApplicationAvailable => 0x00F0,
            AlError::Specific => 0xffff,
        }
    }

    /// the variant of a code on the wire, if any
    pub fn from_code(code: u16) -> (r: Option<Self>)
        ensures
            r == al_error_of_code(code),
    {
        match code {
            0x0000 => Some(AlError::NoError),
            0x0001 => Some(AlError::Unspecified),
            0x0002 => Some(AlError::NoMemory),
            0x0003 => Some(AlError::InvalidDeviceSetup),
            0x0011 => Some(AlError::InvalidStateRequest),
            0x0012 => Some(AlError::UnknownStateRequest),
            0x0013 => Some(AlError::BootstrapNotSupported),
            0x0014 => Some(AlError::NoValidFirmware),
            0x0015 => Some(AlError::InvalidMailboxConfigBoot),
            0x0016 => Some(AlError::InvalidMailboxConfigPreop),
            0x0017 => Some(AlError::InvalidSyncConfig),
            0x0018 => Some(AlError::NoInputsAvailable),
            0x0019 => Some(AlError::NoValidInputs),
            0x001A => Some(AlError::Synchronization),
            0x001B => Some(AlError::SyncWatchdog),
            0x001C => Some(AlError::InvalidSyncTypes),
            0x001D => Some(AlError::InvalidOutputConfig),
            0x001E => Some(AlError::InvalidInputConfig),
            0x001F => Some(AlError::InvalidWatchdogConfig),
            0x0020 => Some(AlError::NeedColdStart),
            0x0021 => Some(AlError::NeedInit),
            0x0022 => Some(AlError::NeedPreop),
            0x0023 => Some(AlError::NeedSafeOp),
            0x0024 => Some(AlError::InvalidInputMapping),
            0x0025 => Some(AlError::InvalidOutputMapping),
            0x0026 => Some(AlError::InconsistentSettings),
            0x0027 => Some(AlError::FreeRunNotSupported),
            0x0028 => Some(AlError::SyncModeNotSupported),
            0x0029 => Some(AlError::FreeRunNeedsBuffer),
            0x002A => Some(AlError::BackgroundWatchdog),
            0x002B => Some(AlError::NoValidIO),
            0x002C => Some(AlError::FatalSync),
            0x002D => Some(AlError::NoSync),
            0x0030 => Some(AlError::InvalidDcConfig),
            0x0031 => Some(AlError::InvalidLatchConfig),
            0x0032 => Some(AlError::PLL),
            0x0033 => Some(AlError::DCSyncIO),
            0x0034 => Some(AlError::DCSyncTimeout),
            0x0035 => Some(AlError::DCInvalidPeriod),
            0x0041 => Some(AlError::MailboxAOE),
            0x0042 => Some(AlError::MailboxEOE),
            0x0043 => Some(AlError::MailboxCOE),
            0x0044 => Some(AlError::MailboxFOE),
            0x0045 => Some(AlError::MailboxSOE),
            0x004F => Some(AlError::MailboxVOE),
            0x0050 => Some(AlError::EepromNoAccess),
            0x0051 => Some(AlError::Eeeprom),
            0x0060 => Some(AlError::SlaveRestarted),
            0x0061 => Some(AlError::DeviceIdentificationUpdated),
            0x00F0 => Some(AlError::ApplicationAvailable),
            0xffff => Some(AlError::Specific),
            _ => None,
        }
    }
}

/// Decoding the code of a [AlError] gives back the same variant.
pub proof fn law_al_error_code_roundtrip(v: AlError)
    ensures
        al_error_of_code(al_error_code(v)) == Some(v),
{
}
/// ETG.1000.6 table 13 (9 bits, held in 2 bytes)
#[derive(Copy, Clone, Debug, PartialEq, Eq, Structural)]
pub struct AlPdiControlType {
    /// type specific (see ETG.1000.3 DL information parameter)
    pub pdi: u8,
    /// true if AL Management is emulated (AL status follows directly AL control)
    pub strict: bool,
    /// bits beyond the register
    pub padding: u8,
}

impl AlPdiControlType {
    /// the bits of the struct read as an integer, each field truncated to its width
    pub open spec fn raw(&self) -> nat {
        (self.pdi as nat % 0x100)
            + (if self.strict { 1nat } else { 0nat }) * 0x100
            + (self.padding as nat % 0x80) * 0x200
    }

    /// every field fits in its width
    pub open spec fn wf(&self) -> bool {
        self.padding < 0x80
    }

    /// the struct whose bits read as the integer `raw`
    pub open spec fn from_raw(raw: nat) -> Self {
        AlPdiControlType {
            pdi: (raw % 0x100) as u8,
            strict: (raw / 0x100 % 0x2) == 1,
            padding: (raw / 0x200 % 0x80) as u8,
        }
    }

    /// the bits of the struct read as an integer, each field truncated to its width
    pub fn to_bits(&self) -> (r: u64)
        ensures
            r == self.raw(),
    {
        (self.pdi as u64 % 0x100)
            + (if self.strict { 1u64 } else { 0u64 }) * 0x100
            + (self.padding as u64 % 0x80) * 0x200
    }

    /// the struct whose bits read as the integer `raw`
    pub fn from_bits(raw: u64) -> (r: Self)
        requires
            raw < 0x10000,
        ensures
            r == Self::from_raw(raw as nat),
            r.wf(),
    {
        AlPdiControlType {
            pdi: (raw % 0x100) as u8,
            strict: (raw / 0x100 % 0x2) == 1,
            padding: (raw / 0x200 % 0x80) as u8,
        }
    }
}

impl PduData for AlPdiControlType {
    const ID: TypeId = TypeId::CUSTOM;
    type Packed = [u8; 2];

    open spec fn pack_defined(len: nat, bitoffset: u8, bitsize: usize, bitordering: Endianness) -> bool {
        true
    }

    open spec fn spec_pack_slice(
        &self,
        data: Seq<u8>,
        bitoffset: u8,
        bitsize: usize,
        bitordering: Endianness,
    ) -> PackingResult<Seq<u8>> {
        bits_pack_slice_result(self.raw(), 2, data, bitoffset, bitsize)
    }

    open spec fn unpack_defined(len: nat, bitoffset: u8, bitsize: usize, bitordering: Endianness) -> bool {
        true
    }

    open spec fn spec_unpack_slice(
        src: Seq<u8>,
        bitoffset: u8,
        bitsize: usize,
        bitordering: Endianness,
    ) -> PackingResult<Self> {
        match bits_unpack_slice_result(src, 2, bitoffset, bitsize) {
            Ok(v) => Ok(Self::from_raw(v)),
            Err(e) => Err(e),
        }
    }

    open spec fn pack_whole_defined(len: nat) -> bool {
        true
    }

    open spec fn spec_pack(&self, data: Seq<u8>) -> PackingResult<Seq<u8>> {
        bits_pack_result(self.raw(), 2, data)
    }

    open spec fn unpack_whole_defined(len: nat) -> bool {
        true
    }

    open spec fn spec_unpack(src: Seq<u8>) -> PackingResult<Self> {
        match bits_unpack_result(src, 2) {
            Ok(v) => Ok(Self::from_raw(v)),
            Err(e) => Err(e),
        }
    }

    fn pack(&self, data: &mut [u8]) -> (r: PackingResult<()>) {
        proof {
            lemma2_to64();
        }
        pack_bits(self.to_bits(), 2, data)
    }

    fn unpack(src: &[u8]) -> (r: PackingResult<Self>) {
        proof {
            lemma2_to64();
            lemma2_to64_rest();
        }
        match unpack_bits(src, 2) {
            Ok(v) => Ok(Self::from_bits(v)),
            Err(e) => Err(e),
        }
    }

    fn pack_slice(
        &self,
        data: &mut [u8],
        bitoffset: u8,
        bitsize: usize,
        bitordering: Endianness,
    ) -> (r: PackingResult<()>) {
        if bitoffset != 0 {
            return Err(PackingError::BadAlignment(bitoffset as usize, "Bit offset must be at 0 on this implementation"));
        }
        if bitsize != 0 {
            return Err(PackingError::BadSize(bitsize, "Bit size must be at 0 on this implementation"));
        }
        self.pack(data)
    }

    fn unpack_slice(src: &[u8], bitoffset: u8, bitsize: usize, bitordering: Endianness) -> (r: PackingResult<Self>) {
        if bitoffset != 0 {
            return Err(PackingError::BadAlignment(bitoffset as usize, "Bit offset must be at 0 on this implementation"));
        }
        if bitsize != 0 {
            return Err(PackingError::BadSize(bitsize, "Bit size must be at 0 on this implementation"));
        }
        Self::unpack(src)
    }
}

/// The bits of a [AlPdiControlType] whose fields fit in their widths, read back as a struct, give the
/// same struct; and any integer of its width, turned into a struct and back, is unchanged.
pub proof fn law_al_pdi_control_type_bits_roundtrip(h: AlPdiControlType, raw: nat)
    ensures
        h.wf() ==> AlPdiControlType::from_raw(h.raw()) == h,
        raw < 0x10000 ==> AlPdiControlType::from_raw(raw).raw() == raw,
{
}
/// ETG.1000.6 table 15
#[derive(Copy, Clone, Debug, PartialEq, Eq, Structural)]
pub struct AlSyncConfig {
    /// bits 0 to 1
    pub signal_conditioning_sync0: u8,
    /// bits 2 to 2
    pub enable_signal_sync0: bool,
    /// bits 3 to 3
    pub enable_interrupt_sync0: bool,
    /// bits 4 to 5
    pub signal_conditioning_sync1: u8,
    /// bits 6 to 6
    pub enable_signal_sync1: bool,
    /// bits 7 to 7
    pub enable_interrupt_sync1: bool,
}

impl AlSyncConfig {
    /// the bits of the struct read as an integer, each field truncated to its width
    pub open spec fn raw(&self) -> nat {
        (self.signal_conditioning_sync0 as nat % 0x4)
            + (if self.enable_signal_sync0 { 1nat } else { 0nat }) * 0x4
            + (if self.enable_interrupt_sync0 { 1nat } else { 0nat }) * 0x8
            + (self.signal_conditioning_sync1 as nat % 0x4) * 0x10
            + (if self.enable_signal_sync1 { 1nat } else { 0nat }) * 0x40
            + (if self.enable_interrupt_sync1 { 1nat } else { 0nat }) * 0x80
    }

    /// every field fits in its width
    pub open spec fn wf(&self) -> bool {
        self.signal_conditioning_sync0 < 0x4
        && self.signal_conditioning_sync1 < 0x4
    }

    /// the struct whose bits read as the integer `raw`
    pub open spec fn from_raw(raw: nat) -> Self {
        AlSyncConfig {
            signal_conditioning_sync0: (raw % 0x4) as u8,
            enable_signal_sync0: (raw / 0x4 % 0x2) == 1,
            enable_interrupt_sync0: (raw / 0x8 % 0x2) == 1,
            signal_conditioning_sync1: (raw / 0x10 % 0x4) as u8,
            enable_signal_sync1: (raw / 0x40 % 0x2) == 1,
            enable_interrupt_sync1: (raw / 0x80 % 0x2) == 1,
        }
    }

    /// the bits of the struct read as an integer, each field truncated to its width
    #[verifier::rlimit(60)]
    pub fn to_bits(&self) -> (r: u64)
        ensures
            r == self.raw(),
    {
        let mut r: u64 = (self.signal_conditioning_sync0 as u64 % 0x4);
        assert(r < 0x4);
        r = r + (if self.enable_signal_sync0 { 1u64 } else { 0u64 }) * 0x4;
        assert(r < 0x8);
        r = r + (if self.enable_interrupt_sync0 { 1u64 } else { 0u64 }) * 0x8;
        assert(r < 0x10);
        r = r + (self.signal_conditioning_sync1 as u64 % 0x4) * 0x10;
        assert(r < 0x40);
        r = r + (if self.enable_signal_sync1 { 1u64 } else { 0u64 }) * 0x40;
        assert(r < 0x80);
        r = r + (if self.enable_interrupt_sync1 { 1u64 } else { 0u64 }) * 0x80;
        r
    }

    /// the struct whose bits read as the integer `raw`
    pub fn from_bits(raw: u64) -> (r: Self)
        requires
            raw < 0x100,
        ensures
            r == Self::from_raw(raw as nat),
            r.wf(),
    {
        AlSyncConfig {
            signal_conditioning_sync0: (raw % 0x4) as u8,
            enable_signal_sync0: (raw / 0x4 % 0x2) == 1,
            enable_interrupt_sync0: (raw / 0x8 % 0x2) == 1,
            signal_conditioning_sync1: (raw / 0x10 % 0x4) as u8,
            enable_signal_sync1: (raw / 0x40 % 0x2) == 1,
            enable_interrupt_sync1: (raw / 0x80 % 0x2) == 1,
        }
    }
}

impl PduData for AlSyncConfig {
    const ID: TypeId = TypeId::CUSTOM;
    type Packed = [u8; 1];

    open spec fn pack_defined(len: nat, bitoffset: u8, bitsize: usize, bitordering: Endianness) -> bool {
        true
    }

    open spec fn spec_pack_slice(
        &self,
        data: Seq<u8>,
        bitoffset: u8,
        bitsize: usize,
        bitordering: Endianness,
    ) -> PackingResult<Seq<u8>> {
        bits_pack_slice_result(self.raw(), 1, data, bitoffset, bitsize)
    }

    open spec fn unpack_defined(len: nat, bitoffset: u8, bitsize: usize, bitordering: Endianness) -> bool {
        true
    }

    open spec fn spec_unpack_slice(
        src: Seq<u8>,
        bitoffset: u8,
        bitsize: usize,
        bitordering: Endianness,
    ) -> PackingResult<Self> {
        match bits_unpack_slice_result(src, 1, bitoffset, bitsize) {
            Ok(v) => Ok(Self::from_raw(v)),
            Err(e) => Err(e),
        }
    }

    open spec fn pack_whole_defined(len: nat) -> bool {
        true
    }

    open spec fn spec_pack(&self, data: Seq<u8>) -> PackingResult<Seq<u8>> {
        bits_pack_result(self.raw(), 1, data)
    }

    open spec fn unpack_whole_defined(len: nat) -> bool {
        true
    }

    open spec fn spec_unpack(src: Seq<u8>) -> PackingResult<Self> {
        match bits_unpack_result(src, 1) {
            Ok(v) => Ok(Self::from_raw(v)),
            Err(e) => Err(e),
        }
    }

    fn pack(&self, data: &mut [u8]) -> (r: PackingResult<()>) {
        proof {
            lemma2_to64();
        }
        pack_bits(self.to_bits(), 1, data)
    }

    fn unpack(src: &[u8]) -> (r: PackingResult<Self>) {
        proof {
            lemma2_to64();
            lemma2_to64_rest();
        }
        match unpack_bits(src, 1) {
            Ok(v) => Ok(Self::from_bits(v)),
            Err(e) => Err(e),
        }
    }

    fn pack_slice(
        &self,
        data: &mut [u8],
        bitoffset: u8,
        bitsize: usize,
        bitordering: Endianness,
    ) -> (r: PackingResult<()>) {
        if bitoffset != 0 {
            return Err(PackingError::BadAlignment(bitoffset as usize, "Bit offset must be at 0 on this implementation"));
        }
        if bitsize != 0 {
            return Err(PackingError::BadSize(bitsize, "Bit size must be at 0 on this implementation"));
        }
        self.pack(data)
    }

    fn unpack_slice(src: &[u8], bitoffset: u8, bitsize: usize, bitordering: Endianness) -> (r: PackingResult<Self>) {
        if bitoffset != 0 {
            return Err(PackingError::BadAlignment(bitoffset as usize, "Bit offset must be at 0 on this implementation"));
        }
        if bitsize != 0 {
            return Err(PackingError::BadSize(bitsize, "Bit size must be at 0 on this implementation"));
        }
        Self::unpack(src)
    }
}

/// The bits of a [AlSyncConfig] whose fields fit in their widths, read back as a struct, give the
/// same struct; and any integer of its width, turned into a struct and back, is unchanged.
#[verifier::rlimit(60)]
pub proof fn law_al_sync_config_bits_roundtrip(h: AlSyncConfig, raw: nat)
    ensures
        h.wf() ==> AlSyncConfig::from_raw(h.raw()) == h,
        raw < 0x100 ==> AlSyncConfig::from_raw(raw).raw() == raw,
{
    let x_signal_conditioning_sync0: u64 = (h.signal_conditioning_sync0 as u64);
    let x_enable_signal_sync0: u64 = (if h.enable_signal_sync0 { 1u64 } else { 0u64 });
    let x_enable_interrupt_sync0: u64 = (if h.enable_interrupt_sync0 { 1u64 } else { 0u64 });
    let x_signal_conditioning_sync1: u64 = (h.signal_conditioning_sync1 as u64);
    let x_enable_signal_sync1: u64 = (if h.enable_signal_sync1 { 1u64 } else { 0u64 });
    let x_enable_interrupt_sync1: u64 = (if h.enable_interrupt_sync1 { 1u64 } else { 0u64 });
    let v: u64 = (x_signal_conditioning_sync0 + x_enable_signal_sync0 * 0x4 + x_enable_interrupt_sync0 * 0x8 + x_signal_conditioning_sync1 * 0x10 + x_enable_signal_sync1 * 0x40 + x_enable_interrupt_sync1 * 0x80) as u64;
    let r: u64 = raw as u64;
    assert({
        &&& !(v == x_signal_conditioning_sync0 + x_enable_signal_sync0 * 0x4 + x_enable_interrupt_sync0 * 0x8 + x_signal_conditioning_sync1 * 0x10 + x_enable_signal_sync1 * 0x40 + x_enable_interrupt_sync1 * 0x80 && x_signal_conditioning_sync0 < 0x4 && x_enable_signal_sync0 < 0x2 && x_enable_interrupt_sync0 < 0x2 && x_signal_conditioning_sync1 < 0x4 && x_enable_signal_sync1 < 0x2 && x_enable_interrupt_sync1 < 0x2) || (v % 0x4 == x_signal_conditioning_sync0 && v / 0x4 % 0x2 == x_enable_signal_sync0 && v / 0x8 % 0x2 == x_enable_interrupt_sync0 && v / 0x10 % 0x4 == x_signal_conditioning_sync1 && v / 0x40 % 0x2 == x_enable_signal_sync1 && v / 0x80 % 0x2 == x_enable_interrupt_sync1)
        &&& !(r < 0x100) || ((r % 0x4) + (r / 0x4 % 0x2) * 0x4 + (r / 0x8 % 0x2) * 0x8 + (r / 0x10 % 0x4) * 0x10 + (r / 0x40 % 0x2) * 0x40 + (r / 0x80 % 0x2) * 0x80 == r)
    }) by (bit_vector);
    if h.wf() {
        assert(h.raw() == x_signal_conditioning_sync0 + x_enable_signal_sync0 * 0x4 + x_enable_interrupt_sync0 * 0x8 + x_signal_conditioning_sync1 * 0x10 + x_enable_signal_sync1 * 0x40 + x_enable_interrupt_sync1 * 0x80);
    }
}
/// used by the slave to inform the master which mailbox protocol can be used with the slave.
/// ETG.1000.6 table 18
#[derive(Copy, Clone, Debug, PartialEq, Eq, Structural)]
pub struct MailboxSupport {
    /// ADS over EtherCAT (routing and parallel services)
    pub aoe: bool,
    /// Ethernet over EtherCAT (tunnelling of Data Link services)
    pub eoe: bool,
    /// CAN application protocol over EtherCAT (access to SDO)
    pub coe: bool,
    /// File Access over EtherCAT
    pub foe: bool,
    /// Servo Drive Profile over EtherCAT
    pub soe: bool,
    /// Vendor specific protocol over EtherCAT
    pub voe: bool,
    /// reserved bits
    pub reserved: u16,
}

impl MailboxSupport {
    /// the bits of the struct read as an integer, each field truncated to its width
    pub open spec fn raw(&self) -> nat {
        (if self.aoe { 1nat } else { 0nat })
            + (if self.eoe { 1nat } else { 0nat }) * 0x2
            + (if self.coe { 1nat } else { 0nat }) * 0x4
            + (if self.foe { 1nat } else { 0nat }) * 0x8
            + (if self.soe { 1nat } else { 0nat }) * 0x10
            + (if self.voe { 1nat } else { 0nat }) * 0x20
            + (self.reserved as nat % 0x400) * 0x40
    }

    /// every field fits in its width
    pub open spec fn wf(&self) -> bool {
        self.reserved < 0x400
    }

    /// the struct whose bits read as the integer `raw`
    pub open spec fn from_raw(raw: nat) -> Self {
        MailboxSupport {
            aoe: (raw % 0x2) == 1,
            eoe: (raw / 0x2 % 0x2) == 1,
            coe: (raw / 0x4 % 0x2) == 1,
            foe: (raw / 0x8 % 0x2) == 1,
            soe: (raw / 0x10 % 0x2) == 1,
            voe: (raw / 0x20 % 0x2) == 1,
            reserved: (raw / 0x40 % 0x400) as u16,
        }
    }

    /// the bits of the struct read as an integer, each field truncated to its width
    #[verifier::rlimit(60)]
    pub fn to_bits(&self) -> (r: u64)
        ensures
            r == self.raw(),
    {
        let mut r: u64 = (if self.aoe { 1u64 } else { 0u64 });
        assert(r < 0x2);
        r = r + (if self.eoe { 1u64 } else { 0u64 }) * 0x2;
        assert(r < 0x4);
        r = r + (if self.coe { 1u64 } else { 0u64 }) * 0x4;
        assert(r < 0x8);
        r = r + (if self.foe { 1u64 } else { 0u64 }) * 0x8;
        assert(r < 0x10);
        r = r + (if self.soe { 1u64 } else { 0u64 }) * 0x10;
        assert(r < 0x20);
        r = r + (if self.voe { 1u64 } else { 0u64 }) * 0x20;
        assert(r < 0x40);
        r = r + (self.reserved as u64 % 0x400) * 0x40;
        r
    }

    /// the struct whose bits read as the integer `raw`
    pub fn from_bits(raw: u64) -> (r: Self)
        requires
            raw < 0x10000,
        ensures
            r == Self::from_raw(raw as nat),
            r.wf(),
    {
        MailboxSupport {
            aoe: (raw % 0x2) == 1,
            eoe: (raw / 0x2 % 0x2) == 1,
            coe: (raw / 0x4 % 0x2) == 1,
            foe: (raw / 0x8 % 0x2) == 1,
            soe: (raw / 0x10 % 0x2) == 1,
            voe: (raw / 0x20 % 0x2) == 1,
            reserved: (raw / 0x40 % 0x400) as u16,
        }
    }
}

impl PduData for MailboxSupport {
    const ID: TypeId = TypeId::CUSTOM;
    type Packed = [u8; 2];

    open spec fn pack_defined(len: nat, bitoffset: u8, bitsize: usize, bitordering: Endianness) -> bool {
        true
    }

    open spec fn spec_pack_slice(
        &self,
        data: Seq<u8>,
        bitoffset: u8,
        bitsize: usize,
        bitordering: Endianness,
    ) -> PackingResult<Seq<u8>> {
        bits_pack_slice_result(self.raw(), 2, data, bitoffset, bitsize)
    }

    open spec fn unpack_defined(len: nat, bitoffset: u8, bitsize: usize, bitordering: Endianness) -> bool {
        true
    }

    open spec fn spec_unpack_slice(
        src: Seq<u8>,
        bitoffset: u8,
        bitsize: usize,
        bitordering: Endianness,
    ) -> PackingResult<Self> {
        match bits_unpack_slice_result(src, 2, bitoffset, bitsize) {
            Ok(v) => Ok(Self::from_raw(v)),
            Err(e) => Err(e),
        }
    }

    open spec fn pack_whole_defined(len: nat) -> bool {
        true
    }

    open spec fn spec_pack(&self, data: Seq<u8>) -> PackingResult<Seq<u8>> {
        bits_pack_result(self.raw(), 2, data)
    }

    open spec fn unpack_whole_defined(len: nat) -> bool {
        true
    }

    open spec fn spec_unpack(src: Seq<u8>) -> PackingResult<Self> {
        match bits_unpack_result(src, 2) {
            Ok(v) => Ok(Self::from_raw(v)),
            Err(e) => Err(e),
        }
    }

    fn pack(&self, data: &mut [u8]) -> (r: PackingResult<()>) {
        proof {
            lemma2_to64();
        }
        pack_bits(self.to_bits(), 2, data)
    }

    fn unpack(src: &[u8]) -> (r: PackingResult<Self>) {
        proof {
            lemma2_to64();
            lemma2_to64_rest();
        }
        match unpack_bits(src, 2) {
            Ok(v) => Ok(Self::from_bits(v)),
            Err(e) => Err(e),
        }
    }

    fn pack_slice(
        &self,
        data: &mut [u8],
        bitoffset: u8,
        bitsize: usize,
        bitordering: Endianness,
    ) -> (r: PackingResult<()>) {
        if bitoffset != 0 {
            return Err(PackingError::BadAlignment(bitoffset as usize, "Bit offset must be at 0 on this implementation"));
        }
        if bitsize != 0 {
            return Err(PackingError::BadSize(bitsize, "Bit size must be at 0 on this implementation"));
        }
        self.pack(data)
    }

    fn unpack_slice(src: &[u8], bitoffset: u8, bitsize: usize, bitordering: Endianness) -> (r: PackingResult<Self>) {
        if bitoffset != 0 {
            return Err(PackingError::BadAlignment(bitoffset as usize, "Bit offset must be at 0 on this implementation"));
        }
        if bitsize != 0 {
            return Err(PackingError::BadSize(bitsize, "Bit size must be at 0 on this implementation"));
        }
        Self::unpack(src)
    }
}

/// The bits of a [MailboxSupport] whose fields fit in their widths, read back as a struct, give the
/// same struct; and any integer of its width, turned into a struct and back, is unchanged.
#[verifier::rlimit(60)]
pub proof fn law_mailbox_support_bits_roundtrip(h: MailboxSupport, raw: nat)
    ensures
        h.wf() ==> MailboxSupport::from_raw(h.raw()) == h,
        raw < 0x10000 ==> MailboxSupport::from_raw(raw).raw() == raw,
{
    let x_aoe: u64 = (if h.aoe { 1u64 } else { 0u64 });
    let x_eoe: u64 = (if h.eoe { 1u64 } else { 0u64 });
    let x_coe: u64 = (if h.coe { 1u64 } else { 0u64 });
    let x_foe: u64 = (if h.foe { 1u64 } else { 0u64 });
    let x_soe: u64 = (if h.soe { 1u64 } else { 0u64 });
    let x_voe: u64 = (if h.voe { 1u64 } else { 0u64 });
    let x_reserved: u64 = (h.reserved as u64);
    let v: u64 = (x_aoe + x_eoe * 0x2 + x_coe * 0x4 + x_foe * 0x8 + x_soe * 0x10 + x_voe * 0x20 + x_reserved * 0x40) as u64;
    let r: u64 = raw as u64;
    assert({
        &&& !(v == x_aoe + x_eoe * 0x2 + x_coe * 0x4 + x_foe * 0x8 + x_soe * 0x10 + x_voe * 0x20 + x_reserved * 0x40 && x_aoe < 0x2 && x_eoe < 0x2 && x_coe < 0x2 && x_foe < 0x2 && x_soe < 0x2 && x_voe < 0x2 && x_reserved < 0x400) || (v % 0x2 == x_aoe && v / 0x2 % 0x2 == x_eoe && v / 0x4 % 0x2 == x_coe && v / 0x8 % 0x2 == x_foe && v / 0x10 % 0x2 == x_soe && v / 0x20 % 0x2 == x_voe && v / 0x40 % 0x400 == x_reserved)
        &&& !(r < 0x10000) || ((r % 0x2) + (r / 0x2 % 0x2) * 0x2 + (r / 0x4 % 0x2) * 0x4 + (r / 0x8 % 0x2) * 0x8 + (r / 0x10 % 0x2) * 0x10 + (r / 0x20 % 0x2) * 0x20 + (r / 0x40 % 0x400) * 0x40 == r)
    }) by (bit_vector);
    if h.wf() {
        assert(h.raw() == x_aoe + x_eoe * 0x2 + x_coe * 0x4 + x_foe * 0x8 + x_soe * 0x10 + x_voe * 0x20 + x_reserved * 0x40);
    }
}
/// ETG.1000.4 table 33
#[derive(Copy, Clone, Debug, PartialEq, Eq, Structural)]
pub struct DLControl {
    /// true to destroy non-ethercat frames (filter), false to forward them (transmit)
    pub forwarding: bool,
    /// temporary use of loop control settings for about 1 second
    pub temporary: bool,
    /// bits 2 to 7
    pub reserved0: u8,
    /// loop control of each port, 2 bits each (a [LoopControl] code)
    pub ports: u8,
    /// buffer between preparation and send
    pub transmit_buffer_size: u8,
    /// set to true to activate
    pub low_jitter_ebus: bool,
    /// bits 20 to 23
    pub reserved1: u8,
    /// enable the station alias
    pub alias_enable: bool,
    /// bits 25 to 31
    pub reserved2: u8,
}

impl DLControl {
    /// the bits of the struct read as an integer, each field truncated to its width
    pub open spec fn raw(&self) -> nat {
        (if self.forwarding { 1nat } else { 0nat })
            + (if self.temporary { 1nat } else { 0nat }) * 0x2
            + (self.reserved0 as nat % 0x40) * 0x4
            + (self.ports as nat % 0x100) * 0x100
            + (self.transmit_buffer_size as nat % 0x8) * 0x10000
            + (if self.low_jitter_ebus { 1nat } else { 0nat }) * 0x80000
            + (self.reserved1 as nat % 0x10) * 0x100000
            + (if self.alias_enable { 1nat } else { 0nat }) * 0x1000000
            + (self.reserved2 as nat % 0x80) * 0x2000000
    }

    /// every field fits in its width
    pub open spec fn wf(&self) -> bool {
        self.reserved0 < 0x40
        && self.transmit_buffer_size < 0x8
        && self.reserved1 < 0x10
        && self.reserved2 < 0x80
    }

    /// the struct whose bits read as the integer `raw`
    pub open spec fn from_raw(raw: nat) -> Self {
        DLControl {
            forwarding: (raw % 0x2) == 1,
            temporary: (raw / 0x2 % 0x2) == 1,
            reserved0: (raw / 0x4 % 0x40) as u8,
            ports: (raw / 0x100 % 0x100) as u8,
            transmit_buffer_size: (raw / 0x10000 % 0x8) as u8,
            low_jitter_ebus: (raw / 0x80000 % 0x2) == 1,
            reserved1: (raw / 0x100000 % 0x10) as u8,
            alias_enable: (raw / 0x1000000 % 0x2) == 1,
            reserved2: (raw / 0x2000000 % 0x80) as u8,
        }
    }

    /// the bits of the struct read as an integer, each field truncated to its width
    #[verifier::rlimit(60)]
    pub fn to_bits(&self) -> (r: u64)
        ensures
            r == self.raw(),
    {
        let x_forwarding: u64 = if self.forwarding { 1u64 } else { 0u64 };
        let x_temporary: u64 = if self.temporary { 1u64 } else { 0u64 };
        let x_reserved0: u64 = self.reserved0 as u64 % 0x40;
        let x_ports: u64 = self.ports as u64 % 0x100;
        let x_transmit_buffer_size: u64 = self.transmit_buffer_size as u64 % 0x8;
        let x_low_jitter_ebus: u64 = if self.low_jitter_ebus { 1u64 } else { 0u64 };
        let x_reserved1: u64 = self.reserved1 as u64 % 0x10;
        let x_alias_enable: u64 = if self.alias_enable { 1u64 } else { 0u64 };
        let x_reserved2: u64 = self.reserved2 as u64 % 0x80;
        let r: u64 = x_forwarding | (x_temporary << 1u64) | (x_reserved0 << 2u64) | (x_ports << 8u64) | (x_transmit_buffer_size << 16u64) | (x_low_jitter_ebus << 19u64) | (x_reserved1 << 20u64) | (x_alias_enable << 24u64) | (x_reserved2 << 25u64);
        assert(r == x_forwarding + x_temporary * 0x2 + x_reserved0 * 0x4 + x_ports * 0x100 + x_transmit_buffer_size * 0x10000 + x_low_jitter_ebus * 0x80000 + x_reserved1 * 0x100000 + x_alias_enable * 0x1000000 + x_reserved2 * 0x2000000) by (bit_vector)
            requires
                r == x_forwarding | (x_temporary << 1u64) | (x_reserved0 << 2u64) | (x_ports << 8u64) | (x_transmit_buffer_size << 16u64) | (x_low_jitter_ebus << 19u64) | (x_reserved1 << 20u64) | (x_alias_enable << 24u64) | (x_reserved2 << 25u64),
                x_forwarding < 0x2,
                x_temporary < 0x2,
                x_reserved0 < 0x40,
                x_ports < 0x100,
                x_transmit_buffer_size < 0x8,
                x_low_jitter_ebus < 0x2,
                x_reserved1 < 0x10,
                x_alias_enable < 0x2,
                x_reserved2 < 0x80,
        ;
        r
    }

    /// the struct whose bits read as the integer `raw`
    pub fn from_bits(raw: u64) -> (r: Self)
        requires
            raw < 0x100000000,
        ensures
            r == Self::from_raw(raw as nat),
            r.wf(),
    {
        DLControl {
            forwarding: (raw % 0x2) == 1,
            temporary: (raw / 0x2 % 0x2) == 1,
            reserved0: (raw / 0x4 % 0x40) as u8,
            ports: (raw / 0x100 % 0x100) as u8,
            transmit_buffer_size: (raw / 0x10000 % 0x8) as u8,
            low_jitter_ebus: (raw / 0x80000 % 0x2) == 1,
            reserved1: (raw / 0x100000 % 0x10) as u8,
            alias_enable: (raw / 0x1000000 % 0x2) == 1,
            reserved2: (raw / 0x2000000 % 0x80) as u8,
        }
    }
}

impl PduData for DLControl {
    const ID: TypeId = TypeId::CUSTOM;
    type Packed = [u8; 4];

    open spec fn pack_defined(len: nat, bitoffset: u8, bitsize: usize, bitordering: Endianness) -> bool {
        true
    }

    open spec fn spec_pack_slice(
        &self,
        data: Seq<u8>,
        bitoffset: u8,
        bitsize: usize,
        bitordering: Endianness,
    ) -> PackingResult<Seq<u8>> {
        bits_pack_slice_result(self.raw(), 4, data, bitoffset, bitsize)
    }

    open spec fn unpack_defined(len: nat, bitoffset: u8, bitsize: usize, bitordering: Endianness) -> bool {
        true
    }

    open spec fn spec_unpack_slice(
        src: Seq<u8>,
        bitoffset: u8,
        bitsize: usize,
        bitordering: Endianness,
    ) -> PackingResult<Self> {
        match bits_unpack_slice_result(src, 4, bitoffset, bitsize) {
            Ok(v) => Ok(Self::from_raw(v)),
            Err(e) => Err(e),
        }
    }

    open spec fn pack_whole_defined(len: nat) -> bool {
        true
    }

    open spec fn spec_pack(&self, data: Seq<u8>) -> PackingResult<Seq<u8>> {
        bits_pack_result(self.raw(), 4, data)
    }

    open spec fn unpack_whole_defined(len: nat) -> bool {
        true
    }

    open spec fn spec_unpack(src: Seq<u8>) -> PackingResult<Self> {
        match bits_unpack_result(src, 4) {
            Ok(v) => Ok(Self::from_raw(v)),
            Err(e) => Err(e),
        }
    }

    fn pack(&self, data: &mut [u8]) -> (r: PackingResult<()>) {
        proof {
            lemma2_to64();
        }
        pack_bits(self.to_bits(), 4, data)
    }

    fn unpack(src: &[u8]) -> (r: PackingResult<Self>) {
        proof {
            lemma2_to64();
            lemma2_to64_rest();
        }
        match unpack_bits(src, 4) {
            Ok(v) => Ok(Self::from_bits(v)),
            Err(e) => Err(e),
        }
    }

    fn pack_slice(
        &self,
        data: &mut [u8],
        bitoffset: u8,
        bitsize: usize,
        bitordering: Endianness,
    ) -> (r: PackingResult<()>) {
        if bitoffset != 0 {
            return Err(PackingError::BadAlignment(bitoffset as usize, "Bit offset must be at 0 on this implementation"));
        }
        if bitsize != 0 {
            return Err(PackingError::BadSize(bitsize, "Bit size must be at 0 on this implementation"));
        }
        self.pack(data)
    }

    fn unpack_slice(src: &[u8], bitoffset: u8, bitsize: usize, bitordering: Endianness) -> (r: PackingResult<Self>) {
        if bitoffset != 0 {
            return Err(PackingError::BadAlignment(bitoffset as usize, "Bit offset must be at 0 on this implementation"));
        }
        if bitsize != 0 {
            return Err(PackingError::BadSize(bitsize, "Bit size must be at 0 on this implementation"));
        }
        Self::unpack(src)
    }
}

/// The bits of a [DLControl] whose fields fit in their widths, read back as a struct, give the
/// same struct; and any integer of its width, turned into a struct and back, is unchanged.
#[verifier::rlimit(60)]
pub proof fn law_d_l_control_bits_roundtrip(h: DLControl, raw: nat)
    ensures
        h.wf() ==> DLControl::from_raw(h.raw()) == h,
        raw < 0x100000000 ==> DLControl::from_raw(raw).raw() == raw,
{
    let x_forwarding: u64 = (if h.forwarding { 1u64 } else { 0u64 });
    let x_temporary: u64 = (if h.temporary { 1u64 } else { 0u64 });
    let x_reserved0: u64 = (h.reserved0 as u64);
    let x_ports: u64 = (h.ports as u64);
    let x_transmit_buffer_size: u64 = (h.transmit_buffer_size as u64);
    let x_low_jitter_ebus: u64 = (if h.low_jitter_ebus { 1u64 } else { 0u64 });
    let x_reserved1: u64 = (h.reserved1 as u64);
    let x_alias_enable: u64 = (if h.alias_enable { 1u64 } else { 0u64 });
    let x_reserved2: u64 = (h.reserved2 as u64);
    let v: u64 = (x_forwarding + x_temporary * 0x2 + x_reserved0 * 0x4 + x_ports * 0x100 + x_transmit_buffer_size * 0x10000 + x_low_jitter_ebus * 0x80000 + x_reserved1 * 0x100000 + x_alias_enable * 0x1000000 + x_reserved2 * 0x2000000) as u64;
    let r: u64 = raw as u64;
    assert({
        &&& !(v == x_forwarding + x_temporary * 0x2 + x_reserved0 * 0x4 + x_ports * 0x100 + x_transmit_buffer_size * 0x10000 + x_low_jitter_ebus * 0x80000 + x_reserved1 * 0x100000 + x_alias_enable * 0x1000000 + x_reserved2 * 0x2000000 && x_forwarding < 0x2 && x_temporary < 0x2 && x_reserved0 < 0x40 && x_ports < 0x100 && x_transmit_buffer_size < 0x8 && x_low_jitter_ebus < 0x2 && x_reserved1 < 0x10 && x_alias_enable < 0x2 && x_reserved2 < 0x80) || (v % 0x2 == x_forwarding && v / 0x2 % 0x2 == x_temporary && v / 0x4 % 0x40 == x_reserved0 && v / 0x100 % 0x100 == x_ports && v / 0x10000 % 0x8 == x_transmit_buffer_size && v / 0x80000 % 0x2 == x_low_jitter_ebus && v / 0x100000 % 0x10 == x_reserved1 && v / 0x1000000 % 0x2 == x_alias_enable && v / 0x2000000 % 0x80 == x_reserved2)
        &&& !(r < 0x100000000) || ((r % 0x2) + (r / 0x2 % 0x2) * 0x2 + (r / 0x4 % 0x40) * 0x4 + (r / 0x100 % 0x100) * 0x100 + (r / 0x10000 % 0x8) * 0x10000 + (r / 0x80000 % 0x2) * 0x80000 + (r / 0x100000 % 0x10) * 0x100000 + (r / 0x1000000 % 0x2) * 0x1000000 + (r / 0x2000000 % 0x80) * 0x2000000 == r)
    }) by (bit_vector);
    if h.wf() {
        assert(h.raw() == x_forwarding + x_temporary * 0x2 + x_reserved0 * 0x4 + x_ports * 0x100 + x_transmit_buffer_size * 0x10000 + x_low_jitter_ebus * 0x80000 + x_reserved1 * 0x100000 + x_alias_enable * 0x1000000 + x_reserved2 * 0x2000000);
    }
}
/// ETG.1000.4 table 34
#[derive(Copy, Clone, Debug, PartialEq, Eq, Structural)]
pub struct DLStatus {
    /// true if operational
    pub dls_user_operational: bool,
    /// true if watchdog not expired
    pub dls_user_watchdog: bool,
    /// true if activated for at least one port
    pub extended_link_detection: bool,
    /// bits 3 to 3
    pub reserved: bool,
    /// physical link on each port, one bit per port
    pub port_link_status: u8,
    /// closed loop link status on each port, 2 bits per port (loop back, signal detection)
    pub port_loop_status: u8,
}

impl DLStatus {
    /// the bits of the struct read as an integer, each field truncated to its width
    pub open spec fn raw(&self) -> nat {
        (if self.dls_user_operational { 1nat } else { 0nat })
            + (if self.dls_user_watchdog { 1nat } else { 0nat }) * 0x2
            + (if self.extended_link_detection { 1nat } else { 0nat }) * 0x4
            + (if self.reserved { 1nat } else { 0nat }) * 0x8
            + (self.port_link_status as nat % 0x10) * 0x10
            + (self.port_loop_status as nat % 0x100) * 0x100
    }

    /// every field fits in its width
    pub open spec fn wf(&self) -> bool {
        self.port_link_status < 0x10
    }

    /// the struct whose bits read as the integer `raw`
    pub open spec fn from_raw(raw: nat) -> Self {
        DLStatus {
            dls_user_operational: (raw % 0x2) == 1,
            dls_user_watchdog: (raw / 0x2 % 0x2) == 1,
            extended_link_detection: (raw / 0x4 % 0x2) == 1,
            reserved: (raw / 0x8 % 0x2) == 1,
            port_link_status: (raw / 0x10 % 0x10) as u8,
            port_loop_status: (raw / 0x100 % 0x100) as u8,
        }
    }

    /// the bits of the struct read as an integer, each field truncated to its width
    #[verifier::rlimit(60)]
    pub fn to_bits(&self) -> (r: u64)
        ensures
            r == self.raw(),
    {
        let mut r: u64 = (if self.dls_user_operational { 1u64 } else { 0u64 });
        assert(r < 0x2);
        r = r + (if self.dls_user_watchdog { 1u64 } else { 0u64 }) * 0x2;
        assert(r < 0x4);
        r = r + (if self.extended_link_detection { 1u64 } else { 0u64 }) * 0x4;
        assert(r < 0x8);
        r = r + (if self.reserved { 1u64 } else { 0u64 }) * 0x8;
        assert(r < 0x10);
        r = r + (self.port_link_status as u64 % 0x10) * 0x10;
        assert(r < 0x100);
        r = r + (self.port_loop_status as u64 % 0x100) * 0x100;
        r
    }

    /// the struct whose bits read as the integer `raw`
    pub fn from_bits(raw: u64) -> (r: Self)
        requires
            raw < 0x10000,
        ensures
            r == Self::from_raw(raw as nat),
            r.wf(),
    {
        DLStatus {
            dls_user_operational: (raw % 0x2) == 1,
            dls_user_watchdog: (raw / 0x2 % 0x2) == 1,
            extended_link_detection: (raw / 0x4 % 0x2) == 1,
            reserved: (raw / 0x8 % 0x2) == 1,
            port_link_status: (raw / 0x10 % 0x10) as u8,
            port_loop_status: (raw / 0x100 % 0x100) as u8,
        }
    }
}

impl PduData for DLStatus {
    const ID: TypeId = TypeId::CUSTOM;
    type Packed = [u8; 2];

    open spec fn pack_defined(len: nat, bitoffset: u8, bitsize: usize, bitordering: Endianness) -> bool {
        true
    }

    open spec fn spec_pack_slice(
        &self,
        data: Seq<u8>,
        bitoffset: u8,
        bitsize: usize,
        bitordering: Endianness,
    ) -> PackingResult<Seq<u8>> {
        bits_pack_slice_result(self.raw(), 2, data, bitoffset, bitsize)
    }

    open spec fn unpack_defined(len: nat, bitoffset: u8, bitsize: usize, bitordering: Endianness) -> bool {
        true
    }

    open spec fn spec_unpack_slice(
        src: Seq<u8>,
        bitoffset: u8,
        bitsize: usize,
        bitordering: Endianness,
    ) -> PackingResult<Self> {
        match bits_unpack_slice_result(src, 2, bitoffset, bitsize) {
            Ok(v) => Ok(Self::from_raw(v)),
            Err(e) => Err(e),
        }
    }

    open spec fn pack_whole_defined(len: nat) -> bool {
        true
    }

    open spec fn spec_pack(&self, data: Seq<u8>) -> PackingResult<Seq<u8>> {
        bits_pack_result(self.raw(), 2, data)
    }

    open spec fn unpack_whole_defined(len: nat) -> bool {
        true
    }

    open spec fn spec_unpack(src: Seq<u8>) -> PackingResult<Self> {
        match bits_unpack_result(src, 2) {
            Ok(v) => Ok(Self::from_raw(v)),
            Err(e) => Err(e),
        }
    }

    fn pack(&self, data: &mut [u8]) -> (r: PackingResult<()>) {
        proof {
            lemma2_to64();
        }
        pack_bits(self.to_bits(), 2, data)
    }

    fn unpack(src: &[u8]) -> (r: PackingResult<Self>) {
        proof {
            lemma2_to64();
            lemma2_to64_rest();
        }
        match unpack_bits(src, 2) {
            Ok(v) => Ok(Self::from_bits(v)),
            Err(e) => Err(e),
        }
    }

    fn pack_slice(
        &self,
        data: &mut [u8],
        bitoffset: u8,
        bitsize: usize,
        bitordering: Endianness,
    ) -> (r: PackingResult<()>) {
        if bitoffset != 0 {
            return Err(PackingError::BadAlignment(bitoffset as usize, "Bit offset must be at 0 on this implementation"));
        }
        if bitsize != 0 {
            return Err(PackingError::BadSize(bitsize, "Bit size must be at 0 on this implementation"));
        }
        self.pack(data)
    }

    fn unpack_slice(src: &[u8], bitoffset: u8, bitsize: usize, bitordering: Endianness) -> (r: PackingResult<Self>) {
        if bitoffset != 0 {
            return Err(PackingError::BadAlignment(bitoffset as usize, "Bit offset must be at 0 on this implementation"));
        }
        if bitsize != 0 {
            return Err(PackingError::BadSize(bitsize, "Bit size must be at 0 on this implementation"));
        }
        Self::unpack(src)
    }
}

/// The bits of a [DLStatus] whose fields fit in their widths, read back as a struct, give the
/// same struct; and any integer of its width, turned into a struct and back, is unchanged.
#[verifier::rlimit(60)]
pub proof fn law_d_l_status_bits_roundtrip(h: DLStatus, raw: nat)
    ensures
        h.wf() ==> DLStatus::from_raw(h.raw()) == h,
        raw < 0x10000 ==> DLStatus::from_raw(raw).raw() == raw,
{
    let x_dls_user_operational: u64 = (if h.dls_user_operational { 1u64 } else { 0u64 });
    let x_dls_user_watchdog: u64 = (if h.dls_user_watchdog { 1u64 } else { 0u64 });
    let x_extended_link_detection: u64 = (if h.extended_link_detection { 1u64 } else { 0u64 });
    let x_reserved: u64 = (if h.reserved { 1u64 } else { 0u64 });
    let x_port_link_status: u64 = (h.port_link_status as u64);
    let x_port_loop_status: u64 = (h.port_loop_status as u64);
    let v: u64 = (x_dls_user_operational + x_dls_user_watchdog * 0x2 + x_extended_link_detection * 0x4 + x_reserved * 0x8 + x_port_link_status * 0x10 + x_port_loop_status * 0x100) as u64;
    let r: u64 = raw as u64;
    assert({
        &&& !(v == x_dls_user_operational + x_dls_user_watchdog * 0x2 + x_extended_link_detection * 0x4 + x_reserved * 0x8 + x_port_link_status * 0x10 + x_port_loop_status * 0x100 && x_dls_user_operational < 0x2 && x_dls_user_watchdog < 0x2 && x_extended_link_detection < 0x2 && x_reserved < 0x2 && x_port_link_status < 0x10 && x_port_loop_status < 0x100) || (v % 0x2 == x_dls_user_operational && v / 0x2 % 0x2 == x_dls_user_watchdog && v / 0x4 % 0x2 == x_extended_link_detection && v / 0x8 % 0x2 == x_reserved && v / 0x10 % 0x10 == x_port_link_status && v / 0x100 % 0x100 == x_port_loop_status)
        &&& !(r < 0x10000) || ((r % 0x2) + (r / 0x2 % 0x2) * 0x2 + (r / 0x4 % 0x2) * 0x4 + (r / 0x8 % 0x2) * 0x8 + (r / 0x10 % 0x10) * 0x10 + (r / 0x100 % 0x100) * 0x100 == r)
    }) by (bit_vector);
    if h.wf() {
        assert(h.raw() == x_dls_user_operational + x_dls_user_watchdog * 0x2 + x_extended_link_detection * 0x4 + x_reserved * 0x8 + x_port_link_status * 0x10 + x_port_loop_status * 0x100);
    }
}
/// loop status of a port (2 bits, held in a byte)
#[derive(Copy, Clone, Debug, PartialEq, Eq, Structural)]
pub struct LoopStatus {
    /// bits 0 to 0
    pub loop_back: bool,
    /// bits 1 to 1
    pub signal_detection: bool,
    /// bits 2 to 7
    pub padding: u8,
}

impl LoopStatus {
    /// the bits of the struct read as an integer, each field truncated to its width
    pub open spec fn raw(&self) -> nat {
        (if self.loop_back { 1nat } else { 0nat })
            + (if self.signal_detection { 1nat } else { 0nat }) * 0x2
            + (self.padding as nat % 0x40) * 0x4
    }

    /// every field fits in its width
    pub open spec fn wf(&self) -> bool {
        self.padding < 0x40
    }

    /// the struct whose bits read as the integer `raw`
    pub open spec fn from_raw(raw: nat) -> Self {
        LoopStatus {
            loop_back: (raw % 0x2) == 1,
            signal_detection: (raw / 0x2 % 0x2) == 1,
            padding: (raw / 0x4 % 0x40) as u8,
        }
    }

    /// the bits of the struct read as an integer, each field truncated to its width
    pub fn to_bits(&self) -> (r: u64)
        ensures
            r == self.raw(),
    {
        (if self.loop_back { 1u64 } else { 0u64 })
            + (if self.signal_detection { 1u64 } else { 0u64 }) * 0x2
            + (self.padding as u64 % 0x40) * 0x4
    }

    /// the struct whose bits read as the integer `raw`
    pub fn from_bits(raw: u64) -> (r: Self)
        requires
            raw < 0x100,
        ensures
            r == Self::from_raw(raw as nat),
            r.wf(),
    {
        LoopStatus {
            loop_back: (raw % 0x2) == 1,
            signal_detection: (raw / 0x2 % 0x2) == 1,
            padding: (raw / 0x4 % 0x40) as u8,
        }
    }
}

impl PduData for LoopStatus {
    const ID: TypeId = TypeId::CUSTOM;
    type Packed = [u8; 1];

    open spec fn pack_defined(len: nat, bitoffset: u8, bitsize: usize, bitordering: Endianness) -> bool {
        true
    }

    open spec fn spec_pack_slice(
        &self,
        data: Seq<u8>,
        bitoffset: u8,
        bitsize: usize,
        bitordering: Endianness,
    ) -> PackingResult<Seq<u8>> {
        bits_pack_slice_result(self.raw(), 1, data, bitoffset, bitsize)
    }

    open spec fn unpack_defined(len: nat, bitoffset: u8, bitsize: usize, bitordering: Endianness) -> bool {
        true
    }

    open spec fn spec_unpack_slice(
        src: Seq<u8>,
        bitoffset: u8,
        bitsize: usize,
        bitordering: Endianness,
    ) -> PackingResult<Self> {
        match bits_unpack_slice_result(src, 1, bitoffset, bitsize) {
            Ok(v) => Ok(Self::from_raw(v)),
            Err(e) => Err(e),
        }
    }

    open spec fn pack_whole_defined(len: nat) -> bool {
        true
    }

    open spec fn spec_pack(&self, data: Seq<u8>) -> PackingResult<Seq<u8>> {
        bits_pack_result(self.raw(), 1, data)
    }

    open spec fn unpack_whole_defined(len: nat) -> bool {
        true
    }

    open spec fn spec_unpack(src: Seq<u8>) -> PackingResult<Self> {
        match bits_unpack_result(src, 1) {
            Ok(v) => Ok(Self::from_raw(v)),
            Err(e) => Err(e),
        }
    }

    fn pack(&self, data: &mut [u8]) -> (r: PackingResult<()>) {
        proof {
            lemma2_to64();
        }
        pack_bits(self.to_bits(), 1, data)
    }

    fn unpack(src: &[u8]) -> (r: PackingResult<Self>) {
        proof {
            lemma2_to64();
            lemma2_to64_rest();
        }
        match unpack_bits(src, 1) {
            Ok(v) => Ok(Self::from_bits(v)),
            Err(e) => Err(e),
        }
    }

    fn pack_slice(
        &self,
        data: &mut [u8],
        bitoffset: u8,
        bitsize: usize,
        bitordering: Endianness,
    ) -> (r: PackingResult<()>) {
        if bitoffset != 0 {
            return Err(PackingError::BadAlignment(bitoffset as usize, "Bit offset must be at 0 on this implementation"));
        }
        if bitsize != 0 {
            return Err(PackingError::BadSize(bitsize, "Bit size must be at 0 on this implementation"));
        }
        self.pack(data)
    }

    fn unpack_slice(src: &[u8], bitoffset: u8, bitsize: usize, bitordering: Endianness) -> (r: PackingResult<Self>) {
        if bitoffset != 0 {
            return Err(PackingError::BadAlignment(bitoffset as usize, "Bit offset must be at 0 on this implementation"));
        }
        if bitsize != 0 {
            return Err(PackingError::BadSize(bitsize, "Bit size must be at 0 on this implementation"));
        }
        Self::unpack(src)
    }
}

/// The bits of a [LoopStatus] whose fields fit in their widths, read back as a struct, give the
/// same struct; and any integer of its width, turned into a struct and back, is unchanged.
pub proof fn law_loop_status_bits_roundtrip(h: LoopStatus, raw: nat)
    ensures
        h.wf() ==> LoopStatus::from_raw(h.raw()) == h,
        raw < 0x100 ==> LoopStatus::from_raw(raw).raw() == raw,
{
}
/// The event registers are used to indicate an event to the DL -user. The event shall be acknowledged if the corresponding event source is read. The events can be masked.
#[derive(Copy, Clone, Debug, PartialEq, Eq, Structural)]
pub struct DLSUserEvents {
    /// R1 was written
    pub r1_change: bool,
    /// distributed clock events, one bit each
    pub dc: u8,
    /// one or more Sync manager channels were changed
    pub sync_manager_change: bool,
    /// EEPROM command pending
    pub eeprom_emulation: bool,
    /// bits 6 to 7
    pub reserved0: u8,
    /// whether each sync manager channel was accessed, one bit each
    pub sync_manager_channel: u16,
    /// bits 24 to 31
    pub reserved1: u8,
}

impl DLSUserEvents {
    /// the bits of the struct read as an integer, each field truncated to its width
    pub open spec fn raw(&self) -> nat {
        (if self.r1_change { 1nat } else { 0nat })
            + (self.dc as nat % 0x8) * 0x2
            + (if self.sync_manager_change { 1nat } else { 0nat }) * 0x10
            + (if self.eeprom_emulation { 1nat } else { 0nat }) * 0x20
            + (self.reserved0 as nat % 0x4) * 0x40
            + (self.sync_manager_channel as nat % 0x10000) * 0x100
            + (self.reserved1 as nat % 0x100) * 0x1000000
    }

    /// every field fits in its width
    pub open spec fn wf(&self) -> bool {
        self.dc < 0x8
        && self.reserved0 < 0x4
    }

    /// the struct whose bits read as the integer `raw`
    pub open spec fn from_raw(raw: nat) -> Self {
        DLSUserEvents {
            r1_change: (raw % 0x2) == 1,
            dc: (raw / 0x2 % 0x8) as u8,
            sync_manager_change: (raw / 0x10 % 0x2) == 1,
            eeprom_emulation: (raw / 0x20 % 0x2) == 1,
            reserved0: (raw / 0x40 % 0x4) as u8,
            sync_manager_channel: (raw / 0x100 % 0x10000) as u16,
            reserved1: (raw / 0x1000000 % 0x100) as u8,
        }
    }

    /// the bits of the struct read as an integer, each field truncated to its width
    #[verifier::rlimit(60)]
    pub fn to_bits(&self) -> (r: u64)
        ensures
            r == self.raw(),
    {
        let mut r: u64 = (if self.r1_change { 1u64 } else { 0u64 });
        assert(r < 0x2);
        r = r + (self.dc as u64 % 0x8) * 0x2;
        assert(r < 0x10);
        r = r + (if self.sync_manager_change { 1u64 } else { 0u64 }) * 0x10;
        assert(r < 0x20);
        r = r + (if self.eeprom_emulation { 1u64 } else { 0u64 }) * 0x20;
        assert(r < 0x40);
        r = r + (self.reserved0 as u64 % 0x4) * 0x40;
        assert(r < 0x100);
        r = r + (self.sync_manager_channel as u64 % 0x10000) * 0x100;
        assert(r < 0x1000000);
        r = r + (self.reserved1 as u64 % 0x100) * 0x1000000;
        r
    }

    /// the struct whose bits read as the integer `raw`
    pub fn from_bits(raw: u64) -> (r: Self)
        requires
            raw < 0x100000000,
        ensures
            r == Self::from_raw(raw as nat),
            r.wf(),
    {
        DLSUserEvents {
            r1_change: (raw % 0x2) == 1,
            dc: (raw / 0x2 % 0x8) as u8,
            sync_manager_change: (raw / 0x10 % 0x2) == 1,
            eeprom_emulation: (raw / 0x20 % 0x2) == 1,
            reserved0: (raw / 0x40 % 0x4) as u8,
            sync_manager_channel: (raw / 0x100 % 0x10000) as u16,
            reserved1: (raw / 0x1000000 % 0x100) as u8,
        }
    }
}

impl PduData for DLSUserEvents {
    const ID: TypeId = TypeId::CUSTOM;
    type Packed = [u8; 4];

    open spec fn pack_defined(len: nat, bitoffset: u8, bitsize: usize, bitordering: Endianness) -> bool {
        true
    }

    open spec fn spec_pack_slice(
        &self,
        data: Seq<u8>,
        bitoffset: u8,
        bitsize: usize,
        bitordering: Endianness,
    ) -> PackingResult<Seq<u8>> {
        bits_pack_slice_result(self.raw(), 4, data, bitoffset, bitsize)
    }

    open spec fn unpack_defined(len: nat, bitoffset: u8, bitsize: usize, bitordering: Endianness) -> bool {
        true
    }

    open spec fn spec_unpack_slice(
        src: Seq<u8>,
        bitoffset: u8,
        bitsize: usize,
        bitordering: Endianness,
    ) -> PackingResult<Self> {
        match bits_unpack_slice_result(src, 4, bitoffset, bitsize) {
            Ok(v) => Ok(Self::from_raw(v)),
            Err(e) => Err(e),
        }
    }

    open spec fn pack_whole_defined(len: nat) -> bool {
        true
    }

    open spec fn spec_pack(&self, data: Seq<u8>) -> PackingResult<Seq<u8>> {
        bits_pack_result(self.raw(), 4, data)
    }

    open spec fn unpack_whole_defined(len: nat) -> bool {
        true
    }

    open spec fn spec_unpack(src: Seq<u8>) -> PackingResult<Self> {
        match bits_unpack_result(src, 4) {
            Ok(v) => Ok(Self::from_raw(v)),
            Err(e) => Err(e),
        }
    }

    fn pack(&self, data: &mut [u8]) -> (r: PackingResult<()>) {
        proof {
            lemma2_to64();
        }
        pack_bits(self.to_bits(), 4, data)
    }

    fn unpack(src: &[u8]) -> (r: PackingResult<Self>) {
        proof {
            lemma2_to64();
            lemma2_to64_rest();
        }
        match unpack_bits(src, 4) {
            Ok(v) => Ok(Self::from_bits(v)),
            Err(e) => Err(e),
        }
    }

    fn pack_slice(
        &self,
        data: &mut [u8],
        bitoffset: u8,
        bitsize: usize,
        bitordering: Endianness,
    ) -> (r: PackingResult<()>) {
        if bitoffset != 0 {
            return Err(PackingError::BadAlignment(bitoffset as usize, "Bit offset must be at 0 on this implementation"));
        }
        if bitsize != 0 {
            return Err(PackingError::BadSize(bitsize, "Bit size must be at 0 on this implementation"));
        }
        self.pack(data)
    }

    fn unpack_slice(src: &[u8], bitoffset: u8, bitsize: usize, bitordering: Endianness) -> (r: PackingResult<Self>) {
        if bitoffset != 0 {
            return Err(PackingError::BadAlignment(bitoffset as usize, "Bit offset must be at 0 on this implementation"));
        }
        if bitsize != 0 {
            return Err(PackingError::BadSize(bitsize, "Bit size must be at 0 on this implementation"));
        }
        Self::unpack(src)
    }
}

/// The bits of a [DLSUserEvents] whose fields fit in their widths, read back as a struct, give the
/// same struct; and any integer of its width, turned into a struct and back, is unchanged.
#[verifier::rlimit(60)]
pub proof fn law_d_l_s_user_events_bits_roundtrip(h: DLSUserEvents, raw: nat)
    ensures
        h.wf() ==> DLSUserEvents::from_raw(h.raw()) == h,
        raw < 0x100000000 ==> DLSUserEvents::from_raw(raw).raw() == raw,
{
    let x_r1_change: u64 = (if h.r1_change { 1u64 } else { 0u64 });
    let x_dc: u64 = (h.dc as u64);
    let x_sync_manager_change: u64 = (if h.sync_manager_change { 1u64 } else { 0u64 });
    let x_eeprom_emulation: u64 = (if h.eeprom_emulation { 1u64 } else { 0u64 });
    let x_reserved0: u64 = (h.reserved0 as u64);
    let x_sync_manager_channel: u64 = (h.sync_manager_channel as u64);
    let x_reserved1: u64 = (h.reserved1 as u64);
    let v: u64 = (x_r1_change + x_dc * 0x2 + x_sync_manager_change * 0x10 + x_eeprom_emulation * 0x20 + x_reserved0 * 0x40 + x_sync_manager_channel * 0x100 + x_reserved1 * 0x1000000) as u64;
    let r: u64 = raw as u64;
    assert({
        &&& !(v == x_r1_change + x_dc * 0x2 + x_sync_manager_change * 0x10 + x_eeprom_emulation * 0x20 + x_reserved0 * 0x40 + x_sync_manager_channel * 0x100 + x_reserved1 * 0x1000000 && x_r1_change < 0x2 && x_dc < 0x8 && x_sync_manager_change < 0x2 && x_eeprom_emulation < 0x2 && x_reserved0 < 0x4 && x_sync_manager_channel < 0x10000 && x_reserved1 < 0x100) || (v % 0x2 == x_r1_change && v / 0x2 % 0x8 == x_dc && v / 0x10 % 0x2 == x_sync_manager_change && v / 0x20 % 0x2 == x_eeprom_emulation && v / 0x40 % 0x4 == x_reserved0 && v / 0x100 % 0x10000 == x_sync_manager_channel && v / 0x1000000 % 0x100 == x_reserved1)
        &&& !(r < 0x100000000) || ((r % 0x2) + (r / 0x2 % 0x8) * 0x2 + (r / 0x10 % 0x2) * 0x10 + (r / 0x20 % 0x2) * 0x20 + (r / 0x40 % 0x4) * 0x40 + (r / 0x100 % 0x10000) * 0x100 + (r / 0x1000000 % 0x100) * 0x1000000 == r)
    }) by (bit_vector);
    if h.wf() {
        assert(h.raw() == x_r1_change + x_dc * 0x2 + x_sync_manager_change * 0x10 + x_eeprom_emulation * 0x20 + x_reserved0 * 0x40 + x_sync_manager_channel * 0x100 + x_reserved1 * 0x1000000);
    }
}
/**
	The external event is mapped to IRQ parameter of all EtherCAT PDUs accessing this slave. If an event is set, and the associated mask is set the corresponding bit in the IRQ parameter of a PDU is set.

	ETG.1000.4 table 38
*/
#[derive(Copy, Clone, Debug, PartialEq, Eq, Structural)]
pub struct ExternalEvent {
    /// dc event 0
    pub dc0: bool,
    /// bits 1 to 1
    pub reserved0: bool,
    /// dl status register was changed
    pub dl_status_change: bool,
    /// R3 or R4 was written
    pub r3_r4_change: bool,
    /// sync manager channel was accessed by slave, one bit each
    pub sync_manager_channel: u8,
    /// bits 12 to 15
    pub reserved1: u8,
}

impl ExternalEvent {
    /// the bits of the struct read as an integer, each field truncated to its width
    pub open spec fn raw(&self) -> nat {
        (if self.dc0 { 1nat } else { 0nat })
            + (if self.reserved0 { 1nat } else { 0nat }) * 0x2
            + (if self.dl_status_change { 1nat } else { 0nat }) * 0x4
            + (if self.r3_r4_change { 1nat } else { 0nat }) * 0x8
            + (self.sync_manager_channel as nat % 0x100) * 0x10
            + (self.reserved1 as nat % 0x10) * 0x1000
    }

    /// every field fits in its width
    pub open spec fn wf(&self) -> bool {
        self.reserved1 < 0x10
    }

    /// the struct whose bits read as the integer `raw`
    pub open spec fn from_raw(raw: nat) -> Self {
        ExternalEvent {
            dc0: (raw % 0x2) == 1,
            reserved0: (raw / 0x2 % 0x2) == 1,
            dl_status_change: (raw / 0x4 % 0x2) == 1,
            r3_r4_change: (raw / 0x8 % 0x2) == 1,
            sync_manager_channel: (raw / 0x10 % 0x100) as u8,
            reserved1: (raw / 0x1000 % 0x10) as u8,
        }
    }

    /// the bits of the struct read as an integer, each field truncated to its width
    #[verifier::rlimit(60)]
    pub fn to_bits(&self) -> (r: u64)
        ensures
            r == self.raw(),
    {
        let mut r: u64 = (if self.dc0 { 1u64 } else { 0u64 });
        assert(r < 0x2);
        r = r + (if self.reserved0 { 1u64 } else { 0u64 }) * 0x2;
        assert(r < 0x4);
        r = r + (if self.dl_status_change { 1u64 } else { 0u64 }) * 0x4;
        assert(r < 0x8);
        r = r + (if self.r3_r4_change { 1u64 } else { 0u64 }) * 0x8;
        assert(r < 0x10);
        r = r + (self.sync_manager_channel as u64 % 0x100) * 0x10;
        assert(r < 0x1000);
        r = r + (self.reserved1 as u64 % 0x10) * 0x1000;
        r
    }

    /// the struct whose bits read as the integer `raw`
    pub fn from_bits(raw: u64) -> (r: Self)
        requires
            raw < 0x10000,
        ensures
            r == Self::from_raw(raw as nat),
            r.wf(),
    {
        ExternalEvent {
            dc0: (raw % 0x2) == 1,
            reserved0: (raw / 0x2 % 0x2) == 1,
            dl_status_change: (raw / 0x4 % 0x2) == 1,
            r3_r4_change: (raw / 0x8 % 0x2) == 1,
            sync_manager_channel: (raw / 0x10 % 0x100) as u8,
            reserved1: (raw / 0x1000 % 0x10) as u8,
        }
    }
}

impl PduData for ExternalEvent {
    const ID: TypeId = TypeId::CUSTOM;
    type Packed = [u8; 2];

    open spec fn pack_defined(len: nat, bitoffset: u8, bitsize: usize, bitordering: Endianness) -> bool {
        true
    }

    open spec fn spec_pack_slice(
        &self,
        data: Seq<u8>,
        bitoffset: u8,
        bitsize: usize,
        bitordering: Endianness,
    ) -> PackingResult<Seq<u8>> {
        bits_pack_slice_result(self.raw(), 2, data, bitoffset, bitsize)
    }

    open spec fn unpack_defined(len: nat, bitoffset: u8, bitsize: usize, bitordering: Endianness) -> bool {
        true
    }

    open spec fn spec_unpack_slice(
        src: Seq<u8>,
        bitoffset: u8,
        bitsize: usize,
        bitordering: Endianness,
    ) -> PackingResult<Self> {
        match bits_unpack_slice_result(src, 2, bitoffset, bitsize) {
            Ok(v) => Ok(Self::from_raw(v)),
            Err(e) => Err(e),
        }
    }

    open spec fn pack_whole_defined(len: nat) -> bool {
        true
    }

    open spec fn spec_pack(&self, data: Seq<u8>) -> PackingResult<Seq<u8>> {
        bits_pack_result(self.raw(), 2, data)
    }

    open spec fn unpack_whole_defined(len: nat) -> bool {
        true
    }

    open spec fn spec_unpack(src: Seq<u8>) -> PackingResult<Self> {
        match bits_unpack_result(src, 2) {
            Ok(v) => Ok(Self::from_raw(v)),
            Err(e) => Err(e),
        }
    }

    fn pack(&self, data: &mut [u8]) -> (r: PackingResult<()>) {
        proof {
            lemma2_to64();
        }
        pack_bits(self.to_bits(), 2, data)
    }

    fn unpack(src: &[u8]) -> (r: PackingResult<Self>) {
        proof {
            lemma2_to64();
            lemma2_to64_rest();
        }
        match unpack_bits(src, 2) {
            Ok(v) => Ok(Self::from_bits(v)),
            Err(e) => Err(e),
        }
    }

    fn pack_slice(
        &self,
        data: &mut [u8],
        bitoffset: u8,
        bitsize: usize,
        bitordering: Endianness,
    ) -> (r: PackingResult<()>) {
        if bitoffset != 0 {
            return Err(PackingError::BadAlignment(bitoffset as usize, "Bit offset must be at 0 on this implementation"));
        }
        if bitsize != 0 {
            return Err(PackingError::BadSize(bitsize, "Bit size must be at 0 on this implementation"));
        }
        self.pack(data)
    }

    fn unpack_slice(src: &[u8], bitoffset: u8, bitsize: usize, bitordering: Endianness) -> (r: PackingResult<Self>) {
        if bitoffset != 0 {
            return Err(PackingError::BadAlignment(bitoffset as usize, "Bit offset must be at 0 on this implementation"));
        }
        if bitsize != 0 {
            return Err(PackingError::BadSize(bitsize, "Bit size must be at 0 on this implementation"));
        }
        Self::unpack(src)
    }
}

/// The bits of a [ExternalEvent] whose fields fit in their widths, read back as a struct, give the
/// same struct; and any integer of its width, turned into a struct and back, is unchanged.
#[verifier::rlimit(60)]
pub proof fn law_external_event_bits_roundtrip(h: ExternalEvent, raw: nat)
    ensures
        h.wf() ==> ExternalEvent::from_raw(h.raw()) == h,
        raw < 0x10000 ==> ExternalEvent::from_raw(raw).raw() == raw,
{
    let x_dc0: u64 = (if h.dc0 { 1u64 } else { 0u64 });
    let x_reserved0: u64 = (if h.reserved0 { 1u64 } else { 0u64 });
    let x_dl_status_change: u64 = (if h.dl_status_change { 1u64 } else { 0u64 });
    let x_r3_r4_change: u64 = (if h.r3_r4_change { 1u64 } else { 0u64 });
    let x_sync_manager_channel: u64 = (h.sync_manager_channel as u64);
    let x_reserved1: u64 = (h.reserved1 as u64);
    let v: u64 = (x_dc0 + x_reserved0 * 0x2 + x_dl_status_change * 0x4 + x_r3_r4_change * 0x8 + x_sync_manager_channel * 0x10 + x_reserved1 * 0x1000) as u64;
    let r: u64 = raw as u64;
    assert({
        &&& !(v == x_dc0 + x_reserved0 * 0x2 + x_dl_status_change * 0x4 + x_r3_r4_change * 0x8 + x_sync_manager_channel * 0x10 + x_reserved1 * 0x1000 && x_dc0 < 0x2 && x_reserved0 < 0x2 && x_dl_status_change < 0x2 && x_r3_r4_change < 0x2 && x_sync_manager_channel < 0x100 && x_reserved1 < 0x10) || (v % 0x2 == x_dc0 && v / 0x2 % 0x2 == x_reserved0 && v / 0x4 % 0x2 == x_dl_status_change && v / 0x8 % 0x2 == x_r3_r4_change && v / 0x10 % 0x100 == x_sync_manager_channel && v / 0x1000 % 0x10 == x_reserved1)
        &&& !(r < 0x10000) || ((r % 0x2) + (r / 0x2 % 0x2) * 0x2 + (r / 0x4 % 0x2) * 0x4 + (r / 0x8 % 0x2) * 0x8 + (r / 0x10 % 0x100) * 0x10 + (r / 0x1000 % 0x10) * 0x1000 == r)
    }) by (bit_vector);
    if h.wf() {
        assert(h.raw() == x_dc0 + x_reserved0 * 0x2 + x_dl_status_change * 0x4 + x_r3_r4_change * 0x8 + x_sync_manager_channel * 0x10 + x_reserved1 * 0x1000);
    }
}
/// error counters of a port
#[derive(Copy, Clone, Debug, PartialEq, Eq, Structural)]
pub struct PortErrorCount {
    /// counts the occurrences of frame errors (including RX errors within frame)
    pub frame: u8,
    /// counts the occurrences of RX errors at the physical layer
    pub physical: u8,
}

impl PortErrorCount {
    /// the bits of the struct read as an integer, each field truncated to its width
    pub open spec fn raw(&self) -> nat {
        (self.frame as nat % 0x100)
            + (self.physical as nat % 0x100) * 0x100
    }

    /// every field fits in its width
    pub open spec fn wf(&self) -> bool {
        true
    }

    /// the struct whose bits read as the integer `raw`
    pub open spec fn from_raw(raw: nat) -> Self {
        PortErrorCount {
            frame: (raw % 0x100) as u8,
            physical: (raw / 0x100 % 0x100) as u8,
        }
    }

    /// the bits of the struct read as an integer, each field truncated to its width
    pub fn to_bits(&self) -> (r: u64)
        ensures
            r == self.raw(),
    {
        (self.frame as u64 % 0x100)
            + (self.physical as u64 % 0x100) * 0x100
    }

    /// the struct whose bits read as the integer `raw`
    pub fn from_bits(raw: u64) -> (r: Self)
        requires
            raw < 0x10000,
        ensures
            r == Self::from_raw(raw as nat),
            r.wf(),
    {
        PortErrorCount {
            frame: (raw % 0x100) as u8,
            physical: (raw / 0x100 % 0x100) as u8,
        }
    }
}

impl PduData for PortErrorCount {
    const ID: TypeId = TypeId::CUSTOM;
    type Packed = [u8; 2];

    open spec fn pack_defined(len: nat, bitoffset: u8, bitsize: usize, bitordering: Endianness) -> bool {
        true
    }

    open spec fn spec_pack_slice(
        &self,
        data: Seq<u8>,
        bitoffset: u8,
        bitsize: usize,
        bitordering: Endianness,
    ) -> PackingResult<Seq<u8>> {
        bits_pack_slice_result(self.raw(), 2, data, bitoffset, bitsize)
    }

    open spec fn unpack_defined(len: nat, bitoffset: u8, bitsize: usize, bitordering: Endianness) -> bool {
        true
    }

    open spec fn spec_unpack_slice(
        src: Seq<u8>,
        bitoffset: u8,
        bitsize: usize,
        bitordering: Endianness,
    ) -> PackingResult<Self> {
        match bits_unpack_slice_result(src, 2, bitoffset, bitsize) {
            Ok(v) => Ok(Self::from_raw(v)),
            Err(e) => Err(e),
        }
    }

    open spec fn pack_whole_defined(len: nat) -> bool {
        true
    }

    open spec fn spec_pack(&self, data: Seq<u8>) -> PackingResult<Seq<u8>> {
        bits_pack_result(self.raw(), 2, data)
    }

    open spec fn unpack_whole_defined(len: nat) -> bool {
        true
    }

    open spec fn spec_unpack(src: Seq<u8>) -> PackingResult<Self> {
        match bits_unpack_result(src, 2) {
            Ok(v) => Ok(Self::from_raw(v)),
            Err(e) => Err(e),
        }
    }

    fn pack(&self, data: &mut [u8]) -> (r: PackingResult<()>) {
        proof {
            lemma2_to64();
        }
        pack_bits(self.to_bits(), 2, data)
    }

    fn unpack(src: &[u8]) -> (r: PackingResult<Self>) {
        proof {
            lemma2_to64();
            lemma2_to64_rest();
        }
        match unpack_bits(src, 2) {
            Ok(v) => Ok(Self::from_bits(v)),
            Err(e) => Err(e),
        }
    }

    fn pack_slice(
        &self,
        data: &mut [u8],
        bitoffset: u8,
        bitsize: usize,
        bitordering: Endianness,
    ) -> (r: PackingResult<()>) {
        if bitoffset != 0 {
            return Err(PackingError::BadAlignment(bitoffset as usize, "Bit offset must be at 0 on this implementation"));
        }
        if bitsize != 0 {
            return Err(PackingError::BadSize(bitsize, "Bit size must be at 0 on this implementation"));
        }
        self.pack(data)
    }

    fn unpack_slice(src: &[u8], bitoffset: u8, bitsize: usize, bitordering: Endianness) -> (r: PackingResult<Self>) {
        if bitoffset != 0 {
            return Err(PackingError::BadAlignment(bitoffset as usize, "Bit offset must be at 0 on this implementation"));
        }
        if bitsize != 0 {
            return Err(PackingError::BadSize(bitsize, "Bit size must be at 0 on this implementation"));
        }
        Self::unpack(src)
    }
}

/// The bits of a [PortErrorCount] whose fields fit in their widths, read back as a struct, give the
/// same struct; and any integer of its width, turned into a struct and back, is unchanged.
pub proof fn law_port_error_count_bits_roundtrip(h: PortErrorCount, raw: nat)
    ensures
        h.wf() ==> PortErrorCount::from_raw(h.raw()) == h,
        raw < 0x10000 ==> PortErrorCount::from_raw(raw).raw() == raw,
{
}
/// counts the occurrences of link down, for each port
#[derive(Copy, Clone, Debug, PartialEq, Eq, Structural)]
pub struct LostLinkCount {
    /// bits 0 to 7
    pub port0: u8,
    /// bits 8 to 15
    pub port1: u8,
    /// bits 16 to 23
    pub port2: u8,
    /// bits 24 to 31
    pub port3: u8,
}

impl LostLinkCount {
    /// the bits of the struct read as an integer, each field truncated to its width
    pub open spec fn raw(&self) -> nat {
        (self.port0 as nat % 0x100)
            + (self.port1 as nat % 0x100) * 0x100
            + (self.port2 as nat % 0x100) * 0x10000
            + (self.port3 as nat % 0x100) * 0x1000000
    }

    /// every field fits in its width
    pub open spec fn wf(&self) -> bool {
        true
    }

    /// the struct whose bits read as the integer `raw`
    pub open spec fn from_raw(raw: nat) -> Self {
        LostLinkCount {
            port0: (raw % 0x100) as u8,
            port1: (raw / 0x100 % 0x100) as u8,
            port2: (raw / 0x10000 % 0x100) as u8,
            port3: (raw / 0x1000000 % 0x100) as u8,
        }
    }

    /// the bits of the struct read as an integer, each field truncated to its width
    pub fn to_bits(&self) -> (r: u64)
        ensures
            r == self.raw(),
    {
        (self.port0 as u64 % 0x100)
            + (self.port1 as u64 % 0x100) * 0x100
            + (self.port2 as u64 % 0x100) * 0x10000
            + (self.port3 as u64 % 0x100) * 0x1000000
    }

    /// the struct whose bits read as the integer `raw`
    pub fn from_bits(raw: u64) -> (r: Self)
        requires
            raw < 0x100000000,
        ensures
            r == Self::from_raw(raw as nat),
            r.wf(),
    {
        LostLinkCount {
            port0: (raw % 0x100) as u8,
            port1: (raw / 0x100 % 0x100) as u8,
            port2: (raw / 0x10000 % 0x100) as u8,
            port3: (raw / 0x1000000 % 0x100) as u8,
        }
    }
}

impl PduData for LostLinkCount {
    const ID: TypeId = TypeId::CUSTOM;
    type Packed = [u8; 4];

    open spec fn pack_defined(len: nat, bitoffset: u8, bitsize: usize, bitordering: Endianness) -> bool {
        true
    }

    open spec fn spec_pack_slice(
        &self,
        data: Seq<u8>,
        bitoffset: u8,
        bitsize: usize,
        bitordering: Endianness,
    ) -> PackingResult<Seq<u8>> {
        bits_pack_slice_result(self.raw(), 4, data, bitoffset, bitsize)
    }

    open spec fn unpack_defined(len: nat, bitoffset: u8, bitsize: usize, bitordering: Endianness) -> bool {
        true
    }

    open spec fn spec_unpack_slice(
        src: Seq<u8>,
        bitoffset: u8,
        bitsize: usize,
        bitordering: Endianness,
    ) -> PackingResult<Self> {
        match bits_unpack_slice_result(src, 4, bitoffset, bitsize) {
            Ok(v) => Ok(Self::from_raw(v)),
            Err(e) => Err(e),
        }
    }

    open spec fn pack_whole_defined(len: nat) -> bool {
        true
    }

    open spec fn spec_pack(&self, data: Seq<u8>) -> PackingResult<Seq<u8>> {
        bits_pack_result(self.raw(), 4, data)
    }

    open spec fn unpack_whole_defined(len: nat) -> bool {
        true
    }

    open spec fn spec_unpack(src: Seq<u8>) -> PackingResult<Self> {
        match bits_unpack_result(src, 4) {
            Ok(v) => Ok(Self::from_raw(v)),
            Err(e) => Err(e),
        }
    }

    fn pack(&self, data: &mut [u8]) -> (r: PackingResult<()>) {
        proof {
            lemma2_to64();
        }
        pack_bits(self.to_bits(), 4, data)
    }

    fn unpack(src: &[u8]) -> (r: PackingResult<Self>) {
        proof {
            lemma2_to64();
            lemma2_to64_rest();
        }
        match unpack_bits(src, 4) {
            Ok(v) => Ok(Self::from_bits(v)),
            Err(e) => Err(e),
        }
    }

    fn pack_slice(
        &self,
        data: &mut [u8],
        bitoffset: u8,
        bitsize: usize,
        bitordering: Endianness,
    ) -> (r: PackingResult<()>) {
        if bitoffset != 0 {
            return Err(PackingError::BadAlignment(bitoffset as usize, "Bit offset must be at 0 on this implementation"));
        }
        if bitsize != 0 {
            return Err(PackingError::BadSize(bitsize, "Bit size must be at 0 on this implementation"));
        }
        self.pack(data)
    }

    fn unpack_slice(src: &[u8], bitoffset: u8, bitsize: usize, bitordering: Endianness) -> (r: PackingResult<Self>) {
        if bitoffset != 0 {
            return Err(PackingError::BadAlignment(bitoffset as usize, "Bit offset must be at 0 on this implementation"));
        }
        if bitsize != 0 {
            return Err(PackingError::BadSize(bitsize, "Bit size must be at 0 on this implementation"));
        }
        Self::unpack(src)
    }
}

/// The bits of a [LostLinkCount] whose fields fit in their widths, read back as a struct, give the
/// same struct; and any integer of its width, turned into a struct and back, is unchanged.
pub proof fn law_lost_link_count_bits_roundtrip(h: LostLinkCount, raw: nat)
    ensures
        h.wf() ==> LostLinkCount::from_raw(h.raw()) == h,
        raw < 0x100000000 ==> LostLinkCount::from_raw(raw).raw() == raw,
{
    let x_port0: u64 = (h.port0 as u64);
    let x_port1: u64 = (h.port1 as u64);
    let x_port2: u64 = (h.port2 as u64);
    let x_port3: u64 = (h.port3 as u64);
    let v: u64 = (x_port0 + x_port1 * 0x100 + x_port2 * 0x10000 + x_port3 * 0x1000000) as u64;
    let r: u64 = raw as u64;
    assert({
        &&& !(v == x_port0 + x_port1 * 0x100 + x_port2 * 0x10000 + x_port3 * 0x1000000 && x_port0 < 0x100 && x_port1 < 0x100 && x_port2 < 0x100 && x_port3 < 0x100) || (v % 0x100 == x_port0 && v / 0x100 % 0x100 == x_port1 && v / 0x10000 % 0x100 == x_port2 && v / 0x1000000 % 0x100 == x_port3)
        &&& !(r < 0x100000000) || ((r % 0x100) + (r / 0x100 % 0x100) * 0x100 + (r / 0x10000 % 0x100) * 0x10000 + (r / 0x1000000 % 0x100) * 0x1000000 == r)
    }) by (bit_vector);
    if h.wf() {
        assert(h.raw() == x_port0 + x_port1 * 0x100 + x_port2 * 0x10000 + x_port3 * 0x1000000);
    }
}
/// A write to one counter will reset all Previous Error counters
#[derive(Copy, Clone, Debug, PartialEq, Eq, Structural)]
pub struct FrameErrorCount {
    /// bits 0 to 7
    pub previous_error_count0: u8,
    /// bits 8 to 15
    pub previous_error_count1: u8,
    /// bits 16 to 23
    pub previous_error_count2: u8,
    /// bits 24 to 31
    pub previous_error_count3: u8,
    /// bits 32 to 39
    pub malformat_frame_count: u8,
    /// bits 40 to 47
    pub local_problem_count: u8,
}

impl FrameErrorCount {
    /// the bits of the struct read as an integer, each field truncated to its width
    pub open spec fn raw(&self) -> nat {
        (self.previous_error_count0 as nat % 0x100)
            + (self.previous_error_count1 as nat % 0x100) * 0x100
            + (self.previous_error_count2 as nat % 0x100) * 0x10000
            + (self.previous_error_count3 as nat % 0x100) * 0x1000000
            + (self.malformat_frame_count as nat % 0x100) * 0x100000000
            + (self.local_problem_count as nat % 0x100) * 0x10000000000
    }

    /// every field fits in its width
    pub open spec fn wf(&self) -> bool {
        true
    }

    /// the struct whose bits read as the integer `raw`
    pub open spec fn from_raw(raw: nat) -> Self {
        FrameErrorCount {
            previous_error_count0: (raw % 0x100) as u8,
            previous_error_count1: (raw / 0x100 % 0x100) as u8,
            previous_error_count2: (raw / 0x10000 % 0x100) as u8,
            previous_error_count3: (raw / 0x1000000 % 0x100) as u8,
            malformat_frame_count: (raw / 0x100000000 % 0x100) as u8,
            local_problem_count: (raw / 0x10000000000 % 0x100) as u8,
        }
    }

    /// the bits of the struct read as an integer, each field truncated to its width
    #[verifier::rlimit(60)]
    pub fn to_bits(&self) -> (r: u64)
        ensures
            r == self.raw(),
    {
        let mut r: u64 = (self.previous_error_count0 as u64 % 0x100);
        assert(r < 0x100);
        r = r + (self.previous_error_count1 as u64 % 0x100) * 0x100;
        assert(r < 0x10000);
        r = r + (self.previous_error_count2 as u64 % 0x100) * 0x10000;
        assert(r < 0x1000000);
        r = r + (self.previous_error_count3 as u64 % 0x100) * 0x1000000;
        assert(r < 0x100000000);
        r = r + (self.malformat_frame_count as u64 % 0x100) * 0x100000000;
        assert(r < 0x10000000000);
        r = r + (self.local_problem_count as u64 % 0x100) * 0x10000000000;
        r
    }

    /// the struct whose bits read as the integer `raw`
    pub fn from_bits(raw: u64) -> (r: Self)
        requires
            raw < 0x1000000000000,
        ensures
            r == Self::from_raw(raw as nat),
            r.wf(),
    {
        FrameErrorCount {
            previous_error_count0: (raw % 0x100) as u8,
            previous_error_count1: (raw / 0x100 % 0x100) as u8,
            previous_error_count2: (raw / 0x10000 % 0x100) as u8,
            previous_error_count3: (raw / 0x1000000 % 0x100) as u8,
            malformat_frame_count: (raw / 0x100000000 % 0x100) as u8,
            local_problem_count: (raw / 0x10000000000 % 0x100) as u8,
        }
    }
}

impl PduData for FrameErrorCount {
    const ID: TypeId = TypeId::CUSTOM;
    type Packed = [u8; 6];

    open spec fn pack_defined(len: nat, bitoffset: u8, bitsize: usize, bitordering: Endianness) -> bool {
        true
    }

    open spec fn spec_pack_slice(
        &self,
        data: Seq<u8>,
        bitoffset: u8,
        bitsize: usize,
        bitordering: Endianness,
    ) -> PackingResult<Seq<u8>> {
        bits_pack_slice_result(self.raw(), 6, data, bitoffset, bitsize)
    }

    open spec fn unpack_defined(len: nat, bitoffset: u8, bitsize: usize, bitordering: Endianness) -> bool {
        true
    }

    open spec fn spec_unpack_slice(
        src: Seq<u8>,
        bitoffset: u8,
        bitsize: usize,
        bitordering: Endianness,
    ) -> PackingResult<Self> {
        match bits_unpack_slice_result(src, 6, bitoffset, bitsize) {
            Ok(v) => Ok(Self::from_raw(v)),
            Err(e) => Err(e),
        }
    }

    open spec fn pack_whole_defined(len: nat) -> bool {
        true
    }

    open spec fn spec_pack(&self, data: Seq<u8>) -> PackingResult<Seq<u8>> {
        bits_pack_result(self.raw(), 6, data)
    }

    open spec fn unpack_whole_defined(len: nat) -> bool {
        true
    }

    open spec fn spec_unpack(src: Seq<u8>) -> PackingResult<Self> {
        match bits_unpack_result(src, 6) {
            Ok(v) => Ok(Self::from_raw(v)),
            Err(e) => Err(e),
        }
    }

    fn pack(&self, data: &mut [u8]) -> (r: PackingResult<()>) {
        proof {
            lemma2_to64();
        }
        pack_bits(self.to_bits(), 6, data)
    }

    fn unpack(src: &[u8]) -> (r: PackingResult<Self>) {
        proof {
            lemma2_to64();
            lemma2_to64_rest();
        }
        match unpack_bits(src, 6) {
            Ok(v) => Ok(Self::from_bits(v)),
            Err(e) => Err(e),
        }
    }

    fn pack_slice(
        &self,
        data: &mut [u8],
        bitoffset: u8,
        bitsize: usize,
        bitordering: Endianness,
    ) -> (r: PackingResult<()>) {
        if bitoffset != 0 {
            return Err(PackingError::BadAlignment(bitoffset as usize, "Bit offset must be at 0 on this implementation"));
        }
        if bitsize != 0 {
            return Err(PackingError::BadSize(bitsize, "Bit size must be at 0 on this implementation"));
        }
        self.pack(data)
    }

    fn unpack_slice(src: &[u8], bitoffset: u8, bitsize: usize, bitordering: Endianness) -> (r: PackingResult<Self>) {
        if bitoffset != 0 {
            return Err(PackingError::BadAlignment(bitoffset as usize, "Bit offset must be at 0 on this implementation"));
        }
        if bitsize != 0 {
            return Err(PackingError::BadSize(bitsize, "Bit size must be at 0 on this implementation"));
        }
        Self::unpack(src)
    }
}

/// The bits of a [FrameErrorCount] whose fields fit in their widths, read back as a struct, give the
/// same struct; and any integer of its width, turned into a struct and back, is unchanged.
#[verifier::rlimit(60)]
pub proof fn law_frame_error_count_bits_roundtrip(h: FrameErrorCount, raw: nat)
    ensures
        h.wf() ==> FrameErrorCount::from_raw(h.raw()) == h,
        raw < 0x1000000000000 ==> FrameErrorCount::from_raw(raw).raw() == raw,
{
    let x_previous_error_count0: u64 = (h.previous_error_count0 as u64);
    let x_previous_error_count1: u64 = (h.previous_error_count1 as u64);
    let x_previous_error_count2: u64 = (h.previous_error_count2 as u64);
    let x_previous_error_count3: u64 = (h.previous_error_count3 as u64);
    let x_malformat_frame_count: u64 = (h.malformat_frame_count as u64);
    let x_local_problem_count: u64 = (h.local_problem_count as u64);
    let v: u64 = (x_previous_error_count0 + x_previous_error_count1 * 0x100 + x_previous_error_count2 * 0x10000 + x_previous_error_count3 * 0x1000000 + x_malformat_frame_count * 0x100000000 + x_local_problem_count * 0x10000000000) as u64;
    let r: u64 = raw as u64;
    assert({
        &&& !(v == x_previous_error_count0 + x_previous_error_count1 * 0x100 + x_previous_error_count2 * 0x10000 + x_previous_error_count3 * 0x1000000 + x_malformat_frame_count * 0x100000000 + x_local_problem_count * 0x10000000000 && x_previous_error_count0 < 0x100 && x_previous_error_count1 < 0x100 && x_previous_error_count2 < 0x100 && x_previous_error_count3 < 0x100 && x_malformat_frame_count < 0x100 && x_local_problem_count < 0x100) || (v % 0x100 == x_previous_error_count0 && v / 0x100 % 0x100 == x_previous_error_count1 && v / 0x10000 % 0x100 == x_previous_error_count2 && v / 0x1000000 % 0x100 == x_previous_error_count3 && v / 0x100000000 % 0x100 == x_malformat_frame_count && v / 0x10000000000 % 0x100 == x_local_problem_count)
        &&& !(r < 0x1000000000000) || ((r % 0x100) + (r / 0x100 % 0x100) * 0x100 + (r / 0x10000 % 0x100) * 0x10000 + (r / 0x1000000 % 0x100) * 0x1000000 + (r / 0x100000000 % 0x100) * 0x100000000 + (r / 0x10000000000 % 0x100) * 0x10000000000 == r)
    }) by (bit_vector);
    if h.wf() {
        assert(h.raw() == x_previous_error_count0 + x_previous_error_count1 * 0x100 + x_previous_error_count2 * 0x10000 + x_previous_error_count3 * 0x1000000 + x_malformat_frame_count * 0x100000000 + x_local_problem_count * 0x10000000000);
    }
}
/// A write will reset the watchdog counters
/// ETG.1000.4 table 47
#[derive(Copy, Clone, Debug, PartialEq, Eq, Structural)]
pub struct WatchdogCounter {
    /// counts the expiration of all Sync manager watchdogs
    pub sync_manager: u8,
    /// counts the expiration of DL-user watchdogs
    pub pdi: u8,
}

impl WatchdogCounter {
    /// the bits of the struct read as an integer, each field truncated to its width
    pub open spec fn raw(&self) -> nat {
        (self.sync_manager as nat % 0x100)
            + (self.pdi as nat % 0x100) * 0x100
    }

    /// every field fits in its width
    pub open spec fn wf(&self) -> bool {
        true
    }

    /// the struct whose bits read as the integer `raw`
    pub open spec fn from_raw(raw: nat) -> Self {
        WatchdogCounter {
            sync_manager: (raw % 0x100) as u8,
            pdi: (raw / 0x100 % 0x100) as u8,
        }
    }

    /// the bits of the struct read as an integer, each field truncated to its width
    pub fn to_bits(&self) -> (r: u64)
        ensures
            r == self.raw(),
    {
        (self.sync_manager as u64 % 0x100)
            + (self.pdi as u64 % 0x100) * 0x100
    }

    /// the struct whose bits read as the integer `raw`
    pub fn from_bits(raw: u64) -> (r: Self)
        requires
            raw < 0x10000,
        ensures
            r == Self::from_raw(raw as nat),
            r.wf(),
    {
        WatchdogCounter {
            sync_manager: (raw % 0x100) as u8,
            pdi: (raw / 0x100 % 0x100) as u8,
        }
    }
}

impl PduData for WatchdogCounter {
    const ID: TypeId = TypeId::CUSTOM;
    type Packed = [u8; 2];

    open spec fn pack_defined(len: nat, bitoffset: u8, bitsize: usize, bitordering: Endianness) -> bool {
        true
    }

    open spec fn spec_pack_slice(
        &self,
        data: Seq<u8>,
        bitoffset: u8,
        bitsize: usize,
        bitordering: Endianness,
    ) -> PackingResult<Seq<u8>> {
        bits_pack_slice_result(self.raw(), 2, data, bitoffset, bitsize)
    }

    open spec fn unpack_defined(len: nat, bitoffset: u8, bitsize: usize, bitordering: Endianness) -> bool {
        true
    }

    open spec fn spec_unpack_slice(
        src: Seq<u8>,
        bitoffset: u8,
        bitsize: usize,
        bitordering: Endianness,
    ) -> PackingResult<Self> {
        match bits_unpack_slice_result(src, 2, bitoffset, bitsize) {
            Ok(v) => Ok(Self::from_raw(v)),
            Err(e) => Err(e),
        }
    }

    open spec fn pack_whole_defined(len: nat) -> bool {
        true
    }

    open spec fn spec_pack(&self, data: Seq<u8>) -> PackingResult<Seq<u8>> {
        bits_pack_result(self.raw(), 2, data)
    }

    open spec fn unpack_whole_defined(len: nat) -> bool {
        true
    }

    open spec fn spec_unpack(src: Seq<u8>) -> PackingResult<Self> {
        match bits_unpack_result(src, 2) {
            Ok(v) => Ok(Self::from_raw(v)),
            Err(e) => Err(e),
        }
    }

    fn pack(&self, data: &mut [u8]) -> (r: PackingResult<()>) {
        proof {
            lemma2_to64();
        }
        pack_bits(self.to_bits(), 2, data)
    }

    fn unpack(src: &[u8]) -> (r: PackingResult<Self>) {
        proof {
            lemma2_to64();
            lemma2_to64_rest();
        }
        match unpack_bits(src, 2) {
            Ok(v) => Ok(Self::from_bits(v)),
            Err(e) => Err(e),
        }
    }

    fn pack_slice(
        &self,
        data: &mut [u8],
        bitoffset: u8,
        bitsize: usize,
        bitordering: Endianness,
    ) -> (r: PackingResult<()>) {
        if bitoffset != 0 {
            return Err(PackingError::BadAlignment(bitoffset as usize, "Bit offset must be at 0 on this implementation"));
        }
        if bitsize != 0 {
            return Err(PackingError::BadSize(bitsize, "Bit size must be at 0 on this implementation"));
        }
        self.pack(data)
    }

    fn unpack_slice(src: &[u8], bitoffset: u8, bitsize: usize, bitordering: Endianness) -> (r: PackingResult<Self>) {
        if bitoffset != 0 {
            return Err(PackingError::BadAlignment(bitoffset as usize, "Bit offset must be at 0 on this implementation"));
        }
        if bitsize != 0 {
            return Err(PackingError::BadSize(bitsize, "Bit size must be at 0 on this implementation"));
        }
        Self::unpack(src)
    }
}

/// The bits of a [WatchdogCounter] whose fields fit in their widths, read back as a struct, give the
/// same struct; and any integer of its width, turned into a struct and back, is unchanged.
pub proof fn law_watchdog_counter_bits_roundtrip(h: WatchdogCounter, raw: nat)
    ensures
        h.wf() ==> WatchdogCounter::from_raw(h.raw()) == h,
        raw < 0x10000 ==> WatchdogCounter::from_raw(raw).raw() == raw,
{
}
/// ETH.1000.4 table 48
#[derive(Copy, Clone, Debug, PartialEq, Eq, Structural)]
pub struct SiiAccess {
    /// false if the ethercat DL owns the SII, true if the PDI does
    pub owner: bool,
    /// setting this will reset access to SII
    pub lock: bool,
    /// bits 2 to 7
    pub reserved0: u8,
    /// PDI access active
    pub pdi: bool,
    /// bits 9 to 15
    pub reserved1: u8,
}

impl SiiAccess {
    /// the bits of the struct read as an integer, each field truncated to its width
    pub open spec fn raw(&self) -> nat {
        (if self.owner { 1nat } else { 0nat })
            + (if self.lock { 1nat } else { 0nat }) * 0x2
            + (self.reserved0 as nat % 0x40) * 0x4
            + (if self.pdi { 1nat } else { 0nat }) * 0x100
            + (self.reserved1 as nat % 0x80) * 0x200
    }

    /// every field fits in its width
    pub open spec fn wf(&self) -> bool {
        self.reserved0 < 0x40
        && self.reserved1 < 0x80
    }

    /// the struct whose bits read as the integer `raw`
    pub open spec fn from_raw(raw: nat) -> Self {
        SiiAccess {
            owner: (raw % 0x2) == 1,
            lock: (raw / 0x2 % 0x2) == 1,
            reserved0: (raw / 0x4 % 0x40) as u8,
            pdi: (raw / 0x100 % 0x2) == 1,
            reserved1: (raw / 0x200 % 0x80) as u8,
        }
    }

    /// the bits of the struct read as an integer, each field truncated to its width
    pub fn to_bits(&self) -> (r: u64)
        ensures
            r == self.raw(),
    {
        let mut r: u64 = (if self.owner { 1u64 } else { 0u64 });
        assert(r < 0x2);
        r = r + (if self.lock { 1u64 } else { 0u64 }) * 0x2;
        assert(r < 0x4);
        r = r + (self.reserved0 as u64 % 0x40) * 0x4;
        assert(r < 0x100);
        r = r + (if self.pdi { 1u64 } else { 0u64 }) * 0x100;
        assert(r < 0x200);
        r = r + (self.reserved1 as u64 % 0x80) * 0x200;
        r
    }

    /// the struct whose bits read as the integer `raw`
    pub fn from_bits(raw: u64) -> (r: Self)
        requires
            raw < 0x10000,
        ensures
            r == Self::from_raw(raw as nat),
            r.wf(),
    {
        SiiAccess {
            owner: (raw % 0x2) == 1,
            lock: (raw / 0x2 % 0x2) == 1,
            reserved0: (raw / 0x4 % 0x40) as u8,
            pdi: (raw / 0x100 % 0x2) == 1,
            reserved1: (raw / 0x200 % 0x80) as u8,
        }
    }
}

impl PduData for SiiAccess {
    const ID: TypeId = TypeId::CUSTOM;
    type Packed = [u8; 2];

    open spec fn pack_defined(len: nat, bitoffset: u8, bitsize: usize, bitordering: Endianness) -> bool {
        true
    }

    open spec fn spec_pack_slice(
        &self,
        data: Seq<u8>,
        bitoffset: u8,
        bitsize: usize,
        bitordering: Endianness,
    ) -> PackingResult<Seq<u8>> {
        bits_pack_slice_result(self.raw(), 2, data, bitoffset, bitsize)
    }

    open spec fn unpack_defined(len: nat, bitoffset: u8, bitsize: usize, bitordering: Endianness) -> bool {
        true
    }

    open spec fn spec_unpack_slice(
        src: Seq<u8>,
        bitoffset: u8,
        bitsize: usize,
        bitordering: Endianness,
    ) -> PackingResult<Self> {
        match bits_unpack_slice_result(src, 2, bitoffset, bitsize) {
            Ok(v) => Ok(Self::from_raw(v)),
            Err(e) => Err(e),
        }
    }

    open spec fn pack_whole_defined(len: nat) -> bool {
        true
    }

    open spec fn spec_pack(&self, data: Seq<u8>) -> PackingResult<Seq<u8>> {
        bits_pack_result(self.raw(), 2, data)
    }

    open spec fn unpack_whole_defined(len: nat) -> bool {
        true
    }

    open spec fn spec_unpack(src: Seq<u8>) -> PackingResult<Self> {
        match bits_unpack_result(src, 2) {
            Ok(v) => Ok(Self::from_raw(v)),
            Err(e) => Err(e),
        }
    }

    fn pack(&self, data: &mut [u8]) -> (r: PackingResult<()>) {
        proof {
            lemma2_to64();
        }
        pack_bits(self.to_bits(), 2, data)
    }

    fn unpack(src: &[u8]) -> (r: PackingResult<Self>) {
        proof {
            lemma2_to64();
            lemma2_to64_rest();
        }
        match unpack_bits(src, 2) {
            Ok(v) => Ok(Self::from_bits(v)),
            Err(e) => Err(e),
        }
    }

    fn pack_slice(
        &self,
        data: &mut [u8],
        bitoffset: u8,
        bitsize: usize,
        bitordering: Endianness,
    ) -> (r: PackingResult<()>) {
        if bitoffset != 0 {
            return Err(PackingError::BadAlignment(bitoffset as usize, "Bit offset must be at 0 on this implementation"));
        }
        if bitsize != 0 {
            return Err(PackingError::BadSize(bitsize, "Bit size must be at 0 on this implementation"));
        }
        self.pack(data)
    }

    fn unpack_slice(src: &[u8], bitoffset: u8, bitsize: usize, bitordering: Endianness) -> (r: PackingResult<Self>) {
        if bitoffset != 0 {
            return Err(PackingError::BadAlignment(bitoffset as usize, "Bit offset must be at 0 on this implementation"));
        }
        if bitsize != 0 {
            return Err(PackingError::BadSize(bitsize, "Bit size must be at 0 on this implementation"));
        }
        Self::unpack(src)
    }
}

/// The bits of a [SiiAccess] whose fields fit in their widths, read back as a struct, give the
/// same struct; and any integer of its width, turned into a struct and back, is unchanged.
pub proof fn law_sii_access_bits_roundtrip(h: SiiAccess, raw: nat)
    ensures
        h.wf() ==> SiiAccess::from_raw(h.raw()) == h,
        raw < 0x10000 ==> SiiAccess::from_raw(raw).raw() == raw,
{
    let x_owner: u64 = (if h.owner { 1u64 } else { 0u64 });
    let x_lock: u64 = (if h.lock { 1u64 } else { 0u64 });
    let x_reserved0: u64 = (h.reserved0 as u64);
    let x_pdi: u64 = (if h.pdi { 1u64 } else { 0u64 });
    let x_reserved1: u64 = (h.reserved1 as u64);
    let v: u64 = (x_owner + x_lock * 0x2 + x_reserved0 * 0x4 + x_pdi * 0x100 + x_reserved1 * 0x200) as u64;
    let r: u64 = raw as u64;
    assert({
        &&& !(v == x_owner + x_lock * 0x2 + x_reserved0 * 0x4 + x_pdi * 0x100 + x_reserved1 * 0x200 && x_owner < 0x2 && x_lock < 0x2 && x_reserved0 < 0x40 && x_pdi < 0x2 && x_reserved1 < 0x80) || (v % 0x2 == x_owner && v / 0x2 % 0x2 == x_lock && v / 0x4 % 0x40 == x_reserved0 && v / 0x100 % 0x2 == x_pdi && v / 0x200 % 0x80 == x_reserved1)
        &&& !(r < 0x10000) || ((r % 0x2) + (r / 0x2 % 0x2) * 0x2 + (r / 0x4 % 0x40) * 0x4 + (r / 0x100 % 0x2) * 0x100 + (r / 0x200 % 0x80) * 0x200 == r)
    }) by (bit_vector);
    if h.wf() {
        assert(h.raw() == x_owner + x_lock * 0x2 + x_reserved0 * 0x4 + x_pdi * 0x100 + x_reserved1 * 0x200);
    }
}
/** 
    register controling the read/write operations to Slave Information Interface (SII)

	ETG.1000.4 table 49
*/
#[derive(Copy, Clone, Debug, PartialEq, Eq, Structural)]
pub struct SiiControl {
    /// true if SII is writable
    pub write_access: bool,
    /// bits 1 to 4
    pub reserved: u8,
    /// DL-user emulates SII, cannot be set by the master
    pub eeprom_emulation: bool,
    /// number of bytes per read transaction: false for 4, true for 8
    pub read_size: bool,
    /// unit of SII addresses: false for bytes, true for words
    pub address_unit: bool,
    /// read operation requested or busy
    pub read_operation: bool,
    /// write operation requested or busy
    pub write_operation: bool,
    /// reload operation requested or busy
    pub reload_operation: bool,
    /// checksum error while reading at startup
    pub checksum_error: bool,
    /// error on reading Device Information
    pub device_info_error: bool,
    /// error on last SII request
    pub command_error: bool,
    /// error on last write operation
    pub write_error: bool,
    /// operation is ongoing
    pub busy: bool,
}

impl SiiControl {
    /// the bits of the struct read as an integer, each field truncated to its width
    pub open spec fn raw(&self) -> nat {
        (if self.write_access { 1nat } else { 0nat })
            + (self.reserved as nat % 0x10) * 0x2
            + (if self.eeprom_emulation { 1nat } else { 0nat }) * 0x20
            + (if self.read_size { 1nat } else { 0nat }) * 0x40
            + (if self.address_unit { 1nat } else { 0nat }) * 0x80
            + (if self.read_operation { 1nat } else { 0nat }) * 0x100
            + (if self.write_operation { 1nat } else { 0nat }) * 0x200
            + (if self.reload_operation { 1nat } else { 0nat }) * 0x400
            + (if self.checksum_error { 1nat } else { 0nat }) * 0x800
            + (if self.device_info_error { 1nat } else { 0nat }) * 0x1000
            + (if self.command_error { 1nat } else { 0nat }) * 0x2000
            + (if self.write_error { 1nat } else { 0nat }) * 0x4000
            + (if self.busy { 1nat } else { 0nat }) * 0x8000
    }

    /// every field fits in its width
    pub open spec fn wf(&self) -> bool {
        self.reserved < 0x10
    }

    /// the struct whose bits read as the integer `raw`
    pub open spec fn from_raw(raw: nat) -> Self {
        SiiControl {
            write_access: (raw % 0x2) == 1,
            reserved: (raw / 0x2 % 0x10) as u8,
            eeprom_emulation: (raw / 0x20 % 0x2) == 1,
            read_size: (raw / 0x40 % 0x2) == 1,
            address_unit: (raw / 0x80 % 0x2) == 1,
            read_operation: (raw / 0x100 % 0x2) == 1,
            write_operation: (raw / 0x200 % 0x2) == 1,
            reload_operation: (raw / 0x400 % 0x2) == 1,
            checksum_error: (raw / 0x800 % 0x2) == 1,
            device_info_error: (raw / 0x1000 % 0x2) == 1,
            command_error: (raw / 0x2000 % 0x2) == 1,
            write_error: (raw / 0x4000 % 0x2) == 1,
            busy: (raw / 0x8000 % 0x2) == 1,
        }
    }

    /// the bits of the struct read as an integer, each field truncated to its width
    #[verifier::rlimit(100)]
    #[verifier::spinoff_prover]
    pub fn to_bits(&self) -> (r: u64)
        ensures
            r == self.raw(),
    {
        let x_write_access: u64 = if self.write_access { 1u64 } else { 0u64 };
        let x_reserved: u64 = self.reserved as u64 % 0x10;
        let x_eeprom_emulation: u64 = if self.eeprom_emulation { 1u64 } else { 0u64 };
        let x_read_size: u64 = if self.read_size { 1u64 } else { 0u64 };
        let x_address_unit: u64 = if self.address_unit { 1u64 } else { 0u64 };
        let x_read_operation: u64 = if self.read_operation { 1u64 } else { 0u64 };
        let x_write_operation: u64 = if self.write_operation { 1u64 } else { 0u64 };
        let x_reload_operation: u64 = if self.reload_operation { 1u64 } else { 0u64 };
        let x_checksum_error: u64 = if self.checksum_error { 1u64 } else { 0u64 };
        let x_device_info_error: u64 = if self.device_info_error { 1u64 } else { 0u64 };
        let x_command_error: u64 = if self.command_error { 1u64 } else { 0u64 };
        let x_write_error: u64 = if self.write_error { 1u64 } else { 0u64 };
        let x_busy: u64 = if self.busy { 1u64 } else { 0u64 };
        let r: u64 = x_write_access | (x_reserved << 1u64) | (x_eeprom_emulation << 5u64) | (x_read_size << 6u64) | (x_address_unit << 7u64) | (x_read_operation << 8u64) | (x_write_operation << 9u64) | (x_reload_operation << 10u64) | (x_checksum_error << 11u64) | (x_device_info_error << 12u64) | (x_command_error << 13u64) | (x_write_error << 14u64) | (x_busy << 15u64);
        assert(r == x_write_access + x_reserved * 0x2 + x_eeprom_emulation * 0x20 + x_read_size * 0x40 + x_address_unit * 0x80 + x_read_operation * 0x100 + x_write_operation * 0x200 + x_reload_operation * 0x400 + x_checksum_error * 0x800 + x_device_info_error * 0x1000 + x_command_error * 0x2000 + x_write_error * 0x4000 + x_busy * 0x8000) by (bit_vector)
            requires
                r == x_write_access | (x_reserved << 1u64) | (x_eeprom_emulation << 5u64) | (x_read_size << 6u64) | (x_address_unit << 7u64) | (x_read_operation << 8u64) | (x_write_operation << 9u64) | (x_reload_operation << 10u64) | (x_checksum_error << 11u64) | (x_device_info_error << 12u64) | (x_command_error << 13u64) | (x_write_error << 14u64) | (x_busy << 15u64),
                x_write_access < 0x2,
                x_reserved < 0x10,
                x_eeprom_emulation < 0x2,
                x_read_size < 0x2,
                x_address_unit < 0x2,
                x_read_operation < 0x2,
                x_write_operation < 0x2,
                x_reload_operation < 0x2,
                x_checksum_error < 0x2,
                x_device_info_error < 0x2,
                x_command_error < 0x2,
                x_write_error < 0x2,
                x_busy < 0x2,
        ;
        r
    }

    /// the struct whose bits read as the integer `raw`
    pub fn from_bits(raw: u64) -> (r: Self)
        requires
            raw < 0x10000,
        ensures
            r == Self::from_raw(raw as nat),
            r.wf(),
    {
        SiiControl {
            write_access: (raw % 0x2) == 1,
            reserved: (raw / 0x2 % 0x10) as u8,
            eeprom_emulation: (raw / 0x20 % 0x2) == 1,
            read_size: (raw / 0x40 % 0x2) == 1,
            address_unit: (raw / 0x80 % 0x2) == 1,
            read_operation: (raw / 0x100 % 0x2) == 1,
            write_operation: (raw / 0x200 % 0x2) == 1,
            reload_operation: (raw / 0x400 % 0x2) == 1,
            checksum_error: (raw / 0x800 % 0x2) == 1,
            device_info_error: (raw / 0x1000 % 0x2) == 1,
            command_error: (raw / 0x2000 % 0x2) == 1,
            write_error: (raw / 0x4000 % 0x2) == 1,
            busy: (raw / 0x8000 % 0x2) == 1,
        }
    }
}

impl PduData for SiiControl {
    const ID: TypeId = TypeId::CUSTOM;
    type Packed = [u8; 2];

    open spec fn pack_defined(len: nat, bitoffset: u8, bitsize: usize, bitordering: Endianness) -> bool {
        true
    }

    open spec fn spec_pack_slice(
        &self,
        data: Seq<u8>,
        bitoffset: u8,
        bitsize: usize,
        bitordering: Endianness,
    ) -> PackingResult<Seq<u8>> {
        bits_pack_slice_result(self.raw(), 2, data, bitoffset, bitsize)
    }

    open spec fn unpack_defined(len: nat, bitoffset: u8, bitsize: usize, bitordering: Endianness) -> bool {
        true
    }

    open spec fn spec_unpack_slice(
        src: Seq<u8>,
        bitoffset: u8,
        bitsize: usize,
        bitordering: Endianness,
    ) -> PackingResult<Self> {
        match bits_unpack_slice_result(src, 2, bitoffset, bitsize) {
            Ok(v) => Ok(Self::from_raw(v)),
            Err(e) => Err(e),
        }
    }

    open spec fn pack_whole_defined(len: nat) -> bool {
        true
    }

    open spec fn spec_pack(&self, data: Seq<u8>) -> PackingResult<Seq<u8>> {
        bits_pack_result(self.raw(), 2, data)
    }

    open spec fn unpack_whole_defined(len: nat) -> bool {
        true
    }

    open spec fn spec_unpack(src: Seq<u8>) -> PackingResult<Self> {
        match bits_unpack_result(src, 2) {
            Ok(v) => Ok(Self::from_raw(v)),
            Err(e) => Err(e),
        }
    }

    fn pack(&self, data: &mut [u8]) -> (r: PackingResult<()>) {
        proof {
            lemma2_to64();
        }
        pack_bits(self.to_bits(), 2, data)
    }

    fn unpack(src: &[u8]) -> (r: PackingResult<Self>) {
        proof {
            lemma2_to64();
            lemma2_to64_rest();
        }
        match unpack_bits(src, 2) {
            Ok(v) => Ok(Self::from_bits(v)),
            Err(e) => Err(e),
        }
    }

    fn pack_slice(
        &self,
        data: &mut [u8],
        bitoffset: u8,
        bitsize: usize,
        bitordering: Endianness,
    ) -> (r: PackingResult<()>) {
        if bitoffset != 0 {
            return Err(PackingError::BadAlignment(bitoffset as usize, "Bit offset must be at 0 on this implementation"));
        }
        if bitsize != 0 {
            return Err(PackingError::BadSize(bitsize, "Bit size must be at 0 on this implementation"));
        }
        self.pack(data)
    }

    fn unpack_slice(src: &[u8], bitoffset: u8, bitsize: usize, bitordering: Endianness) -> (r: PackingResult<Self>) {
        if bitoffset != 0 {
            return Err(PackingError::BadAlignment(bitoffset as usize, "Bit offset must be at 0 on this implementation"));
        }
        if bitsize != 0 {
            return Err(PackingError::BadSize(bitsize, "Bit size must be at 0 on this implementation"));
        }
        Self::unpack(src)
    }
}
/**
	The fieldbus memory management unit (FMMU) converts logical addresses into physical addresses. Each entity describes one memory translation between the logical memory of the EtherCAT communication network and the physical memory of the slave.

	ETG.1000.4 table 56
*/
#[derive(Copy, Clone, Debug, PartialEq, Eq, Structural)]
pub struct FmmuEntry {
    /// start byte in the logical memory
    pub logical_start_byte: u32,
    /// byte size of the data
    pub logical_len_byte: u16,
    /// offset of the start bit in the logical start byte
    pub logical_start_bit: u8,
    /// bits 51 to 55
    pub reserved0: u8,
    /// offset of the end bit in the logical start byte
    pub logical_end_bit: u8,
    /// bits 59 to 63
    pub reserved1: u8,
    /// start byte in the physical memory (set by the sync manager)
    pub physical_start_byte: u16,
    /// start bit in the physical start byte
    pub physical_start_bit: u8,
    /// bits 83 to 87
    pub reserved2: u8,
    /// entity will be used for read service
    pub read: bool,
    /// entity will be used for write service
    pub write: bool,
    /// bits 90 to 95
    pub reserved3: u8,
    /// enable this FMMU entry, so physical memory will be copied from/to logical memory on read/write
    pub enable: bool,
    /// bits 97 to 103
    pub reserved4: u8,
    /// bits 104 to 127
    pub reserved5: u32,
}

impl FmmuEntry {
    /// the low bytes of the struct read as an integer
    pub open spec fn low_raw(&self) -> nat {
        (self.logical_start_byte as nat % 0x100000000)
            + (self.logical_len_byte as nat % 0x10000) * 0x100000000
            + (self.logical_start_bit as nat % 0x8) * 0x1000000000000
            + (self.reserved0 as nat % 0x20) * 0x8000000000000
            + (self.logical_end_bit as nat % 0x8) * 0x100000000000000
            + (self.reserved1 as nat % 0x20) * 0x800000000000000
    }

    fn low_bits(&self) -> (r: u64)
        ensures
            r == self.low_raw(),
    {
        (self.logical_start_byte as u64 % 0x100000000)
            + (self.logical_len_byte as u64 % 0x10000) * 0x100000000
            + (self.logical_start_bit as u64 % 0x8) * 0x1000000000000
            + (self.reserved0 as u64 % 0x20) * 0x8000000000000
            + (self.logical_end_bit as u64 % 0x8) * 0x100000000000000
            + (self.reserved1 as u64 % 0x20) * 0x800000000000000
    }

    /// the high bytes of the struct read as an integer
    pub open spec fn high_raw(&self) -> nat {
        (self.physical_start_byte as nat % 0x10000)
            + (self.physical_start_bit as nat % 0x8) * 0x10000
            + (self.reserved2 as nat % 0x20) * 0x80000
            + (if self.read { 1nat } else { 0nat }) * 0x1000000
            + (if self.write { 1nat } else { 0nat }) * 0x2000000
            + (self.reserved3 as nat % 0x40) * 0x4000000
            + (if self.enable { 1nat } else { 0nat }) * 0x100000000
            + (self.reserved4 as nat % 0x80) * 0x200000000
            + (self.reserved5 as nat % 0x1000000) * 0x10000000000
    }

    fn high_bits(&self) -> (r: u64)
        ensures
            r == self.high_raw(),
    {
        (self.physical_start_byte as u64 % 0x10000)
            + (self.physical_start_bit as u64 % 0x8) * 0x10000
            + (self.reserved2 as u64 % 0x20) * 0x80000
            + (if self.read { 1u64 } else { 0u64 }) * 0x1000000
            + (if self.write { 1u64 } else { 0u64 }) * 0x2000000
            + (self.reserved3 as u64 % 0x40) * 0x4000000
            + (if self.enable { 1u64 } else { 0u64 }) * 0x100000000
            + (self.reserved4 as u64 % 0x80) * 0x200000000
            + (self.reserved5 as u64 % 0x1000000) * 0x10000000000
    }

    /// every field fits in its width
    pub open spec fn wf(&self) -> bool {
        self.logical_start_bit < 0x8
        && self.reserved0 < 0x20
        && self.logical_end_bit < 0x8
        && self.reserved1 < 0x20
        && self.physical_start_bit < 0x8
        && self.reserved2 < 0x20
        && self.reserved3 < 0x40
        && self.reserved4 < 0x80
        && self.reserved5 < 0x1000000
    }

    /// the struct whose first 8 bytes read as `low` and next ones as `high`
    pub open spec fn from_parts(low: nat, high: nat) -> Self {
        FmmuEntry {
            logical_start_byte: (low % 0x100000000) as u32,
            logical_len_byte: (low / 0x100000000 % 0x10000) as u16,
            logical_start_bit: (low / 0x1000000000000 % 0x8) as u8,
            reserved0: (low / 0x8000000000000 % 0x20) as u8,
            logical_end_bit: (low / 0x100000000000000 % 0x8) as u8,
            reserved1: (low / 0x800000000000000 % 0x20) as u8,
            physical_start_byte: (high % 0x10000) as u16,
            physical_start_bit: (high / 0x10000 % 0x8) as u8,
            reserved2: (high / 0x80000 % 0x20) as u8,
            read: (high / 0x1000000 % 0x2) == 1,
            write: (high / 0x2000000 % 0x2) == 1,
            reserved3: (high / 0x4000000 % 0x40) as u8,
            enable: (high / 0x100000000 % 0x2) == 1,
            reserved4: (high / 0x200000000 % 0x80) as u8,
            reserved5: (high / 0x10000000000 % 0x1000000) as u32,
        }
    }

    fn from_bits(low: u64, high: u64) -> (r: Self)
        requires
            high < 0x10000000000000000,
        ensures
            r == Self::from_parts(low as nat, high as nat),
            r.wf(),
    {
        FmmuEntry {
            logical_start_byte: (low % 0x100000000) as u32,
            logical_len_byte: (low / 0x100000000 % 0x10000) as u16,
            logical_start_bit: (low / 0x1000000000000 % 0x8) as u8,
            reserved0: (low / 0x8000000000000 % 0x20) as u8,
            logical_end_bit: (low / 0x100000000000000 % 0x8) as u8,
            reserved1: (low / 0x800000000000000 % 0x20) as u8,
            physical_start_byte: (high % 0x10000) as u16,
            physical_start_bit: (high / 0x10000 % 0x8) as u8,
            reserved2: (high / 0x80000 % 0x20) as u8,
            read: (high / 0x1000000 % 0x2) == 1,
            write: (high / 0x2000000 % 0x2) == 1,
            reserved3: (high / 0x4000000 % 0x40) as u8,
            enable: (high / 0x100000000 % 0x2) == 1,
            reserved4: (high / 0x200000000 % 0x80) as u8,
            reserved5: (high / 0x10000000000 % 0x1000000) as u32,
        }
    }

    /// bytes of the struct on the wire
    pub open spec fn bytes(&self) -> Seq<u8> {
        le_bytes(self.low_raw(), 8) + le_bytes(self.high_raw(), 8)
    }
}

impl PduData for FmmuEntry {
    const ID: TypeId = TypeId::CUSTOM;
    type Packed = [u8; 16];

    open spec fn pack_defined(len: nat, bitoffset: u8, bitsize: usize, bitordering: Endianness) -> bool {
        true
    }

    open spec fn spec_pack_slice(
        &self,
        data: Seq<u8>,
        bitoffset: u8,
        bitsize: usize,
        bitordering: Endianness,
    ) -> PackingResult<Seq<u8>> {
        if bitoffset != 0 {
            Err(PackingError::BadAlignment(bitoffset as usize, "Bit offset must be at 0 on this implementation"))
        } else if bitsize != 0 {
            Err(PackingError::BadSize(bitsize, "Bit size must be at 0 on this implementation"))
        } else {
            self.spec_pack(data)
        }
    }

    open spec fn unpack_defined(len: nat, bitoffset: u8, bitsize: usize, bitordering: Endianness) -> bool {
        true
    }

    open spec fn spec_unpack_slice(
        src: Seq<u8>,
        bitoffset: u8,
        bitsize: usize,
        bitordering: Endianness,
    ) -> PackingResult<Self> {
        if bitoffset != 0 {
            Err(PackingError::BadAlignment(bitoffset as usize, "Bit offset must be at 0 on this implementation"))
        } else if bitsize != 0 {
            Err(PackingError::BadSize(bitsize, "Bit size must be at 0 on this implementation"))
        } else {
            Self::spec_unpack(src)
        }
    }

    open spec fn pack_whole_defined(len: nat) -> bool {
        true
    }

    open spec fn spec_pack(&self, data: Seq<u8>) -> PackingResult<Seq<u8>> {
        if data.len() < 16 {
            Err(PackingError::BadSize(data.len() as usize, "bilge struct needs exact size"))
        } else {
            Ok(self.bytes() + data.subrange(16, data.len() as int))
        }
    }

    open spec fn unpack_whole_defined(len: nat) -> bool {
        true
    }

    open spec fn spec_unpack(src: Seq<u8>) -> PackingResult<Self> {
        if src.len() < 16 {
            Err(PackingError::BadSize(src.len() as usize, "bilge struct needs exact size"))
        } else {
            Ok(Self::from_parts(le_value(src.subrange(0, 8)), le_value(src.subrange(8, 16))))
        }
    }

    fn pack(&self, data: &mut [u8]) -> (r: PackingResult<()>) {
        if data.len() < 16 {
            return Err(PackingError::BadSize(data.len(), "bilge struct needs exact size"));
        }
        let low = crate::numbers::le_bytes_of(self.low_bits(), 8);
        let high = crate::numbers::le_bytes_of(self.high_bits(), 8);
        proof {
            crate::numbers::lemma_le_bytes_len(self.low_raw(), 8);
            crate::numbers::lemma_le_bytes_len(self.high_raw(), 8);
        }
        let ghost d0 = data@;
        let mut i: usize = 0;
        while i < 16
            invariant
                i <= 16,
                16 <= d0.len(),
                low@.len() == 8,
                high@.len() == 8,
                data@.len() == d0.len(),
                forall|j: int| 0 <= j < d0.len() ==> #[trigger] data@[j] == if j < i {
                    (low@ + high@)[j]
                } else {
                    d0[j]
                },
            decreases 16 - i,
        {
            if i < 8 {
                data[i] = low[i];
            } else {
                data[i] = high[i - 8];
            }
            i = i + 1;
        }
        proof {
            assert(data@ =~= self.bytes() + d0.subrange(16, d0.len() as int));
        }
        Ok(())
    }

    fn unpack(src: &[u8]) -> (r: PackingResult<Self>) {
        if src.len() < 16 {
            return Err(PackingError::BadSize(src.len(), "bilge struct needs exact size"));
        }
        let low = crate::numbers::le_value_of(vstd::slice::slice_subrange(src, 0, 8));
        let high = crate::numbers::le_value_of(vstd::slice::slice_subrange(src, 8, 16));
        proof {
            crate::numbers::lemma_le_value_bound(src@.subrange(8, 16));
            lemma2_to64();
        }
        Ok(Self::from_bits(low, high))
    }

    fn pack_slice(
        &self,
        data: &mut [u8],
        bitoffset: u8,
        bitsize: usize,
        bitordering: Endianness,
    ) -> (r: PackingResult<()>) {
        if bitoffset != 0 {
            return Err(PackingError::BadAlignment(bitoffset as usize, "Bit offset must be at 0 on this implementation"));
        }
        if bitsize != 0 {
            return Err(PackingError::BadSize(bitsize, "Bit size must be at 0 on this implementation"));
        }
        self.pack(data)
    }

    fn unpack_slice(src: &[u8], bitoffset: u8, bitsize: usize, bitordering: Endianness) -> (r: PackingResult<Self>) {
        if bitoffset != 0 {
            return Err(PackingError::BadAlignment(bitoffset as usize, "Bit offset must be at 0 on this implementation"));
        }
        if bitsize != 0 {
            return Err(PackingError::BadSize(bitsize, "Bit size must be at 0 on this implementation"));
        }
        Self::unpack(src)
    }
}
/** 
    The Sync manager controls the access to the DL-user memory. Each channel defines a consistent area of the DL-user memory.

    Its flags are grouped in the bytes `control`, `status`, `activate` and `pdi`, and accessed by the methods named after them.

    ETG.1000.4 table 58
*/
#[derive(Copy, Clone, Debug, PartialEq, Eq, Structural)]
pub struct SyncManagerChannel {
    /// start address in octets in the physical memory of the consistent DL-user memory area
    pub address: u16,
    /// size in octets of the consistent DL -user memory area
    pub length: u16,
    /// bits 0-1 mode ([SyncMode] code), 2-3 direction ([SyncDirection] code), 4 ec_event, 5 dls_user_event, 6 watchdog
    pub control: u8,
    /// bit 0 write_event, 1 read_event, 3 mailbox_full, 4-5 buffer_state, 6 read_buffer_open, 7 write_buffer_open
    pub status: u8,
    /// bit 0 enable, 1 repeat, 6 dc_event_bus, 7 dc_event_local
    pub activate: u8,
    /// bit 0 disable_pdi, 1 repeat_ack
    pub pdi: u8,
}

impl SyncManagerChannel {
    /// the bits of the struct read as an integer, each field truncated to its width
    pub open spec fn raw(&self) -> nat {
        (self.address as nat % 0x10000)
            + (self.length as nat % 0x10000) * 0x10000
            + (self.control as nat % 0x100) * 0x100000000
            + (self.status as nat % 0x100) * 0x10000000000
            + (self.activate as nat % 0x100) * 0x1000000000000
            + (self.pdi as nat % 0x100) * 0x100000000000000
    }

    /// every field fits in its width
    pub open spec fn wf(&self) -> bool {
        true
    }

    /// the struct whose bits read as the integer `raw`
    pub open spec fn from_raw(raw: nat) -> Self {
        SyncManagerChannel {
            address: (raw % 0x10000) as u16,
            length: (raw / 0x10000 % 0x10000) as u16,
            control: (raw / 0x100000000 % 0x100) as u8,
            status: (raw / 0x10000000000 % 0x100) as u8,
            activate: (raw / 0x1000000000000 % 0x100) as u8,
            pdi: (raw / 0x100000000000000 % 0x100) as u8,
        }
    }

    /// the bits of the struct read as an integer, each field truncated to its width
    #[verifier::rlimit(60)]
    pub fn to_bits(&self) -> (r: u64)
        ensures
            r == self.raw(),
    {
        let mut r: u64 = (self.address as u64 % 0x10000);
        assert(r < 0x10000);
        r = r + (self.length as u64 % 0x10000) * 0x10000;
        assert(r < 0x100000000);
        r = r + (self.control as u64 % 0x100) * 0x100000000;
        assert(r < 0x10000000000);
        r = r + (self.status as u64 % 0x100) * 0x10000000000;
        assert(r < 0x1000000000000);
        r = r + (self.activate as u64 % 0x100) * 0x1000000000000;
        assert(r < 0x100000000000000);
        r = r + (self.pdi as u64 % 0x100) * 0x100000000000000;
        r
    }

    /// the struct whose bits read as the integer `raw`
    pub fn from_bits(raw: u64) -> (r: Self)
        requires
            raw < 0x10000000000000000,
        ensures
            r == Self::from_raw(raw as nat),
            r.wf(),
    {
        SyncManagerChannel {
            address: (raw % 0x10000) as u16,
            length: (raw / 0x10000 % 0x10000) as u16,
            control: (raw / 0x100000000 % 0x100) as u8,
            status: (raw / 0x10000000000 % 0x100) as u8,
            activate: (raw / 0x1000000000000 % 0x100) as u8,
            pdi: (raw / 0x100000000000000 % 0x100) as u8,
        }
    }
}

impl PduData for SyncManagerChannel {
    const ID: TypeId = TypeId::CUSTOM;
    type Packed = [u8; 8];

    open spec fn pack_defined(len: nat, bitoffset: u8, bitsize: usize, bitordering: Endianness) -> bool {
        true
    }

    open spec fn spec_pack_slice(
        &self,
        data: Seq<u8>,
        bitoffset: u8,
        bitsize: usize,
        bitordering: Endianness,
    ) -> PackingResult<Seq<u8>> {
        bits_pack_slice_result(self.raw(), 8, data, bitoffset, bitsize)
    }

    open spec fn unpack_defined(len: nat, bitoffset: u8, bitsize: usize, bitordering: Endianness) -> bool {
        true
    }

    open spec fn spec_unpack_slice(
        src: Seq<u8>,
        bitoffset: u8,
        bitsize: usize,
        bitordering: Endianness,
    ) -> PackingResult<Self> {
        match bits_unpack_slice_result(src, 8, bitoffset, bitsize) {
            Ok(v) => Ok(Self::from_raw(v)),
            Err(e) => Err(e),
        }
    }

    open spec fn pack_whole_defined(len: nat) -> bool {
        true
    }

    open spec fn spec_pack(&self, data: Seq<u8>) -> PackingResult<Seq<u8>> {
        bits_pack_result(self.raw(), 8, data)
    }

    open spec fn unpack_whole_defined(len: nat) -> bool {
        true
    }

    open spec fn spec_unpack(src: Seq<u8>) -> PackingResult<Self> {
        match bits_unpack_result(src, 8) {
            Ok(v) => Ok(Self::from_raw(v)),
            Err(e) => Err(e),
        }
    }

    fn pack(&self, data: &mut [u8]) -> (r: PackingResult<()>) {
        proof {
            lemma2_to64();
        }
        pack_bits(self.to_bits(), 8, data)
    }

    fn unpack(src: &[u8]) -> (r: PackingResult<Self>) {
        proof {
            lemma2_to64();
            lemma2_to64_rest();
        }
        match unpack_bits(src, 8) {
            Ok(v) => Ok(Self::from_bits(v)),
            Err(e) => Err(e),
        }
    }

    fn pack_slice(
        &self,
        data: &mut [u8],
        bitoffset: u8,
        bitsize: usize,
        bitordering: Endianness,
    ) -> (r: PackingResult<()>) {
        if bitoffset != 0 {
            return Err(PackingError::BadAlignment(bitoffset as usize, "Bit offset must be at 0 on this implementation"));
        }
        if bitsize != 0 {
            return Err(PackingError::BadSize(bitsize, "Bit size must be at 0 on this implementation"));
        }
        self.pack(data)
    }

    fn unpack_slice(src: &[u8], bitoffset: u8, bitsize: usize, bitordering: Endianness) -> (r: PackingResult<Self>) {
        if bitoffset != 0 {
            return Err(PackingError::BadAlignment(bitoffset as usize, "Bit offset must be at 0 on this implementation"));
        }
        if bitsize != 0 {
            return Err(PackingError::BadSize(bitsize, "Bit size must be at 0 on this implementation"));
        }
        Self::unpack(src)
    }
}

/// The bits of a [SyncManagerChannel] whose fields fit in their widths, read back as a struct, give the
/// same struct; and any integer of its width, turned into a struct and back, is unchanged.
#[verifier::rlimit(60)]
pub proof fn law_sync_manager_channel_bits_roundtrip(h: SyncManagerChannel, raw: nat)
    ensures
        h.wf() ==> SyncManagerChannel::from_raw(h.raw()) == h,
        raw < 0x10000000000000000 ==> SyncManagerChannel::from_raw(raw).raw() == raw,
{
    let x_address: u64 = (h.address as u64);
    let x_length: u64 = (h.length as u64);
    let x_control: u64 = (h.control as u64);
    let x_status: u64 = (h.status as u64);
    let x_activate: u64 = (h.activate as u64);
    let x_pdi: u64 = (h.pdi as u64);
    let v: u64 = (x_address + x_length * 0x10000 + x_control * 0x100000000 + x_status * 0x10000000000 + x_activate * 0x1000000000000 + x_pdi * 0x100000000000000) as u64;
    let r: u64 = raw as u64;
    assert({
        &&& !(v == x_address + x_length * 0x10000 + x_control * 0x100000000 + x_status * 0x10000000000 + x_activate * 0x1000000000000 + x_pdi * 0x100000000000000 && x_address < 0x10000 && x_length < 0x10000 && x_control < 0x100 && x_status < 0x100 && x_activate < 0x100 && x_pdi < 0x100) || (v % 0x10000 == x_address && v / 0x10000 % 0x10000 == x_length && v / 0x100000000 % 0x100 == x_control && v / 0x10000000000 % 0x100 == x_status && v / 0x1000000000000 % 0x100 == x_activate && v / 0x100000000000000 % 0x100 == x_pdi)
        &&& !(r < 0x10000000000000000) || ((r % 0x10000) + (r / 0x10000 % 0x10000) * 0x10000 + (r / 0x100000000 % 0x100) * 0x100000000 + (r / 0x10000000000 % 0x100) * 0x10000000000 + (r / 0x1000000000000 % 0x100) * 0x1000000000000 + (r / 0x100000000000000 % 0x100) * 0x100000000000000 == r)
    }) by (bit_vector);
    if h.wf() {
        assert(h.raw() == x_address + x_length * 0x10000 + x_control * 0x100000000 + x_status * 0x10000000000 + x_activate * 0x1000000000000 + x_pdi * 0x100000000000000);
    }
}
impl SyncManagerChannel {
    /// whether the buffer is used for mailbox or exchange through mapping to the logical memory, a [SyncMode] code
    pub open spec fn spec_mode(&self) -> u8 {
        (self.control / 1 % 4) as u8
    }

    /// whether the buffer is used for mailbox or exchange through mapping to the logical memory, a [SyncMode] code
    pub fn mode(&self) -> (r: u8)
        ensures
            r == self.spec_mode(),
    {
        self.control / 1 % 4
    }

    /// set the field: whether the buffer is used for mailbox or exchange through mapping to the logical memory, a [SyncMode] code
    pub fn set_mode(&mut self, value: u8)
        requires
            value < 4,
        ensures
            final(self).spec_mode() == value,
            final(self).control / 4 == old(self).control / 4,
            final(self).control % 1 == old(self).control % 1,
            final(self).address == old(self).address,
            final(self).length == old(self).length,
            final(self).status == old(self).status, final(self).activate == old(self).activate, final(self).pdi == old(self).pdi,
    {
        let low: u8 = self.control % 1;
        let high: u8 = self.control / 4;
        self.control = (high as u16 * 4 + value as u16 * 1 + low as u16) as u8;
    }

    /// whether the consistent DL-user memory area is read or written by the master, a [SyncDirection] code
    pub open spec fn spec_direction(&self) -> u8 {
        (self.control / 4 % 4) as u8
    }

    /// whether the consistent DL-user memory area is read or written by the master, a [SyncDirection] code
    pub fn direction(&self) -> (r: u8)
        ensures
            r == self.spec_direction(),
    {
        self.control / 4 % 4
    }

    /// set the field: whether the consistent DL-user memory area is read or written by the master, a [SyncDirection] code
    pub fn set_direction(&mut self, value: u8)
        requires
            value < 4,
        ensures
            final(self).spec_direction() == value,
            final(self).control / 16 == old(self).control / 16,
            final(self).control % 4 == old(self).control % 4,
            final(self).address == old(self).address,
            final(self).length == old(self).length,
            final(self).status == old(self).status, final(self).activate == old(self).activate, final(self).pdi == old(self).pdi,
    {
        let low: u8 = self.control % 4;
        let high: u8 = self.control / 16;
        self.control = (high as u16 * 16 + value as u16 * 4 + low as u16) as u8;
    }

    /// an event is generated if there is new data available which was written by the master or read by the master
    pub open spec fn spec_ec_event(&self) -> bool {
        self.control / 16 % 2 == 1
    }

    /// an event is generated if there is new data available which was written by the master or read by the master
    pub fn ec_event(&self) -> (r: bool)
        ensures
            r == self.spec_ec_event(),
    {
        self.control / 16 % 2 == 1
    }

    /// set the flag: an event is generated if there is new data available which was written by the master or read by the master
    pub fn set_ec_event(&mut self, value: bool)
        ensures
            final(self).spec_ec_event() == value,
            final(self).control / 16 / 2 == old(self).control / 16 / 2,
            final(self).control % 16 == old(self).control % 16,
            final(self).address == old(self).address,
            final(self).length == old(self).length,
            final(self).status == old(self).status, final(self).activate == old(self).activate, final(self).pdi == old(self).pdi,
    {
        let low: u8 = self.control % 16;
        let high: u8 = self.control / 32;
        let b: u8 = if value { 1 } else { 0 };
        self.control = (high as u16 * 32 + b as u16 * 16 + low as u16) as u8;
    }

    /// an event is generated if there is new data available which was written by the DLS-user or read by the DLS-user
    pub open spec fn spec_dls_user_event(&self) -> bool {
        self.control / 32 % 2 == 1
    }

    /// an event is generated if there is new data available which was written by the DLS-user or read by the DLS-user
    pub fn dls_user_event(&self) -> (r: bool)
        ensures
            r == self.spec_dls_user_event(),
    {
        self.control / 32 % 2 == 1
    }

    /// set the flag: an event is generated if there is new data available which was written by the DLS-user or read by the DLS-user
    pub fn set_dls_user_event(&mut self, value: bool)
        ensures
            final(self).spec_dls_user_event() == value,
            final(self).control / 32 / 2 == old(self).control / 32 / 2,
            final(self).control % 32 == old(self).control % 32,
            final(self).address == old(self).address,
            final(self).length == old(self).length,
            final(self).status == old(self).status, final(self).activate == old(self).activate, final(self).pdi == old(self).pdi,
    {
        let low: u8 = self.control % 32;
        let high: u8 = self.control / 64;
        let b: u8 = if value { 1 } else { 0 };
        self.control = (high as u16 * 64 + b as u16 * 32 + low as u16) as u8;
    }

    /// the monitoring of an access to the consistent DL-user memory area is enabled
    pub open spec fn spec_watchdog(&self) -> bool {
        self.control / 64 % 2 == 1
    }

    /// the monitoring of an access to the consistent DL-user memory area is enabled
    pub fn watchdog(&self) -> (r: bool)
        ensures
            r == self.spec_watchdog(),
    {
        self.control / 64 % 2 == 1
    }

    /// set the flag: the monitoring of an access to the consistent DL-user memory area is enabled
    pub fn set_watchdog(&mut self, value: bool)
        ensures
            final(self).spec_watchdog() == value,
            final(self).control / 64 / 2 == old(self).control / 64 / 2,
            final(self).control % 64 == old(self).control % 64,
            final(self).address == old(self).address,
            final(self).length == old(self).length,
            final(self).status == old(self).status, final(self).activate == old(self).activate, final(self).pdi == old(self).pdi,
    {
        let low: u8 = self.control % 64;
        let high: u8 = self.control / 128;
        let b: u8 = if value { 1 } else { 0 };
        self.control = (high as u16 * 128 + b as u16 * 64 + low as u16) as u8;
    }

    /// the consistent DL-user memory (direction write) has been written by the master
    pub open spec fn spec_write_event(&self) -> bool {
        self.status / 1 % 2 == 1
    }

    /// the consistent DL-user memory (direction write) has been written by the master
    pub fn write_event(&self) -> (r: bool)
        ensures
            r == self.spec_write_event(),
    {
        self.status / 1 % 2 == 1
    }

    /// set the flag: the consistent DL-user memory (direction write) has been written by the master
    pub fn set_write_event(&mut self, value: bool)
        ensures
            final(self).spec_write_event() == value,
            final(self).status / 1 / 2 == old(self).status / 1 / 2,
            final(self).status % 1 == old(self).status % 1,
            final(self).address == old(self).address,
            final(self).length == old(self).length,
            final(self).control == old(self).control, final(self).activate == old(self).activate, final(self).pdi == old(self).pdi,
    {
        let low: u8 = self.status % 1;
        let high: u8 = self.status / 2;
        let b: u8 = if value { 1 } else { 0 };
        self.status = (high as u16 * 2 + b as u16 * 1 + low as u16) as u8;
    }

    /// the consistent DL-user memory (direction read) has been read by the master
    pub open spec fn spec_read_event(&self) -> bool {
        self.status / 2 % 2 == 1
    }

    /// the consistent DL-user memory (direction read) has been read by the master
    pub fn read_event(&self) -> (r: bool)
        ensures
            r == self.spec_read_event(),
    {
        self.status / 2 % 2 == 1
    }

    /// set the flag: the consistent DL-user memory (direction read) has been read by the master
    pub fn set_read_event(&mut self, value: bool)
        ensures
            final(self).spec_read_event() == value,
            final(self).status / 2 / 2 == old(self).status / 2 / 2,
            final(self).status % 2 == old(self).status % 2,
            final(self).address == old(self).address,
            final(self).length == old(self).length,
            final(self).control == old(self).control, final(self).activate == old(self).activate, final(self).pdi == old(self).pdi,
    {
        let low: u8 = self.status % 2;
        let high: u8 = self.status / 4;
        let b: u8 = if value { 1 } else { 0 };
        self.status = (high as u16 * 4 + b as u16 * 2 + low as u16) as u8;
    }

    /// there is data waiting to be read (by master or slave) in the buffer
    pub open spec fn spec_mailbox_full(&self) -> bool {
        self.status / 8 % 2 == 1
    }

    /// there is data waiting to be read (by master or slave) in the buffer
    pub fn mailbox_full(&self) -> (r: bool)
        ensures
            r == self.spec_mailbox_full(),
    {
        self.status / 8 % 2 == 1
    }

    /// set the flag: there is data waiting to be read (by master or slave) in the buffer
    pub fn set_mailbox_full(&mut self, value: bool)
        ensures
            final(self).spec_mailbox_full() == value,
            final(self).status / 8 / 2 == old(self).status / 8 / 2,
            final(self).status % 8 == old(self).status % 8,
            final(self).address == old(self).address,
            final(self).length == old(self).length,
            final(self).control == old(self).control, final(self).activate == old(self).activate, final(self).pdi == old(self).pdi,
    {
        let low: u8 = self.status % 8;
        let high: u8 = self.status / 16;
        let b: u8 = if value { 1 } else { 0 };
        self.status = (high as u16 * 16 + b as u16 * 8 + low as u16) as u8;
    }

    /// state (buffer number, locked) of the consistent DL-user memory if it is of buffered access type
    pub open spec fn spec_buffer_state(&self) -> u8 {
        (self.status / 16 % 4) as u8
    }

    /// state (buffer number, locked) of the consistent DL-user memory if it is of buffered access type
    pub fn buffer_state(&self) -> (r: u8)
        ensures
            r == self.spec_buffer_state(),
    {
        self.status / 16 % 4
    }

    /// set the field: state (buffer number, locked) of the consistent DL-user memory if it is of buffered access type
    pub fn set_buffer_state(&mut self, value: u8)
        requires
            value < 4,
        ensures
            final(self).spec_buffer_state() == value,
            final(self).status / 64 == old(self).status / 64,
            final(self).status % 16 == old(self).status % 16,
            final(self).address == old(self).address,
            final(self).length == old(self).length,
            final(self).control == old(self).control, final(self).activate == old(self).activate, final(self).pdi == old(self).pdi,
    {
        let low: u8 = self.status % 16;
        let high: u8 = self.status / 64;
        self.status = (high as u16 * 64 + value as u16 * 16 + low as u16) as u8;
    }

    /// read buffer open
    pub open spec fn spec_read_buffer_open(&self) -> bool {
        self.status / 64 % 2 == 1
    }

    /// read buffer open
    pub fn read_buffer_open(&self) -> (r: bool)
        ensures
            r == self.spec_read_buffer_open(),
    {
        self.status / 64 % 2 == 1
    }

    /// set the flag: read buffer open
    pub fn set_read_buffer_open(&mut self, value: bool)
        ensures
            final(self).spec_read_buffer_open() == value,
            final(self).status / 64 / 2 == old(self).status / 64 / 2,
            final(self).status % 64 == old(self).status % 64,
            final(self).address == old(self).address,
            final(self).length == old(self).length,
            final(self).control == old(self).control, final(self).activate == old(self).activate, final(self).pdi == old(self).pdi,
    {
        let low: u8 = self.status % 64;
        let high: u8 = self.status / 128;
        let b: u8 = if value { 1 } else { 0 };
        self.status = (high as u16 * 128 + b as u16 * 64 + low as u16) as u8;
    }

    /// write buffer open
    pub open spec fn spec_write_buffer_open(&self) -> bool {
        self.status / 128 % 2 == 1
    }

    /// write buffer open
    pub fn write_buffer_open(&self) -> (r: bool)
        ensures
            r == self.spec_write_buffer_open(),
    {
        self.status / 128 % 2 == 1
    }

    /// set the flag: write buffer open
    pub fn set_write_buffer_open(&mut self, value: bool)
        ensures
            final(self).spec_write_buffer_open() == value,
            final(self).status / 128 / 2 == old(self).status / 128 / 2,
            final(self).status % 128 == old(self).status % 128,
            final(self).address == old(self).address,
            final(self).length == old(self).length,
            final(self).control == old(self).control, final(self).activate == old(self).activate, final(self).pdi == old(self).pdi,
    {
        let low: u8 = self.status % 128;
        let high: u8 = 0;
        let b: u8 = if value { 1 } else { 0 };
        self.status = (high as u16 * 256 + b as u16 * 128 + low as u16) as u8;
    }

    /// this channel is active
    pub open spec fn spec_enable(&self) -> bool {
        self.activate / 1 % 2 == 1
    }

    /// this channel is active
    pub fn enable(&self) -> (r: bool)
        ensures
            r == self.spec_enable(),
    {
        self.activate / 1 % 2 == 1
    }

    /// set the flag: this channel is active
    pub fn set_enable(&mut self, value: bool)
        ensures
            final(self).spec_enable() == value,
            final(self).activate / 1 / 2 == old(self).activate / 1 / 2,
            final(self).activate % 1 == old(self).activate % 1,
            final(self).address == old(self).address,
            final(self).length == old(self).length,
            final(self).control == old(self).control, final(self).status == old(self).status, final(self).pdi == old(self).pdi,
    {
        let low: u8 = self.activate % 1;
        let high: u8 = self.activate / 2;
        let b: u8 = if value { 1 } else { 0 };
        self.activate = (high as u16 * 2 + b as u16 * 1 + low as u16) as u8;
    }

    /// a change in this parameter indicates a repeat request
    pub open spec fn spec_repeat(&self) -> bool {
        self.activate / 2 % 2 == 1
    }

    /// a change in this parameter indicates a repeat request
    pub fn repeat(&self) -> (r: bool)
        ensures
            r == self.spec_repeat(),
    {
        self.activate / 2 % 2 == 1
    }

    /// set the flag: a change in this parameter indicates a repeat request
    pub fn set_repeat(&mut self, value: bool)
        ensures
            final(self).spec_repeat() == value,
            final(self).activate / 2 / 2 == old(self).activate / 2 / 2,
            final(self).activate % 2 == old(self).activate % 2,
            final(self).address == old(self).address,
            final(self).length == old(self).length,
            final(self).control == old(self).control, final(self).status == old(self).status, final(self).pdi == old(self).pdi,
    {
        let low: u8 = self.activate % 2;
        let high: u8 = self.activate / 4;
        let b: u8 = if value { 1 } else { 0 };
        self.activate = (high as u16 * 4 + b as u16 * 2 + low as u16) as u8;
    }

    /// the DC 0 event shall be invoked in case of a EtherCAT write
    pub open spec fn spec_dc_event_bus(&self) -> bool {
        self.activate / 64 % 2 == 1
    }

    /// the DC 0 event shall be invoked in case of a EtherCAT write
    pub fn dc_event_bus(&self) -> (r: bool)
        ensures
            r == self.spec_dc_event_bus(),
    {
        self.activate / 64 % 2 == 1
    }

    /// set the flag: the DC 0 event shall be invoked in case of a EtherCAT write
    pub fn set_dc_event_bus(&mut self, value: bool)
        ensures
            final(self).spec_dc_event_bus() == value,
            final(self).activate / 64 / 2 == old(self).activate / 64 / 2,
            final(self).activate % 64 == old(self).activate % 64,
            final(self).address == old(self).address,
            final(self).length == old(self).length,
            final(self).control == old(self).control, final(self).status == old(self).status, final(self).pdi == old(self).pdi,
    {
        let low: u8 = self.activate % 64;
        let high: u8 = self.activate / 128;
        let b: u8 = if value { 1 } else { 0 };
        self.activate = (high as u16 * 128 + b as u16 * 64 + low as u16) as u8;
    }

    /// the DC 0 event shall be invoked in case of a local write
    pub open spec fn spec_dc_event_local(&self) -> bool {
        self.activate / 128 % 2 == 1
    }

    /// the DC 0 event shall be invoked in case of a local write
    pub fn dc_event_local(&self) -> (r: bool)
        ensures
            r == self.spec_dc_event_local(),
    {
        self.activate / 128 % 2 == 1
    }

    /// set the flag: the DC 0 event shall be invoked in case of a local write
    pub fn set_dc_event_local(&mut self, value: bool)
        ensures
            final(self).spec_dc_event_local() == value,
            final(self).activate / 128 / 2 == old(self).activate / 128 / 2,
            final(self).activate % 128 == old(self).activate % 128,
            final(self).address == old(self).address,
            final(self).length == old(self).length,
            final(self).control == old(self).control, final(self).status == old(self).status, final(self).pdi == old(self).pdi,
    {
        let low: u8 = self.activate % 128;
        let high: u8 = 0;
        let b: u8 = if value { 1 } else { 0 };
        self.activate = (high as u16 * 256 + b as u16 * 128 + low as u16) as u8;
    }

    /// this channel is disabled for PDI access
    pub open spec fn spec_disable_pdi(&self) -> bool {
        self.pdi / 1 % 2 == 1
    }

    /// this channel is disabled for PDI access
    pub fn disable_pdi(&self) -> (r: bool)
        ensures
            r == self.spec_disable_pdi(),
    {
        self.pdi / 1 % 2 == 1
    }

    /// set the flag: this channel is disabled for PDI access
    pub fn set_disable_pdi(&mut self, value: bool)
        ensures
            final(self).spec_disable_pdi() == value,
            final(self).pdi / 1 / 2 == old(self).pdi / 1 / 2,
            final(self).pdi % 1 == old(self).pdi % 1,
            final(self).address == old(self).address,
            final(self).length == old(self).length,
            final(self).control == old(self).control, final(self).status == old(self).status, final(self).activate == old(self).activate,
    {
        let low: u8 = self.pdi % 1;
        let high: u8 = self.pdi / 2;
        let b: u8 = if value { 1 } else { 0 };
        self.pdi = (high as u16 * 2 + b as u16 * 1 + low as u16) as u8;
    }

    /// repeat request acknowledge
    pub open spec fn spec_repeat_ack(&self) -> bool {
        self.pdi / 2 % 2 == 1
    }

    /// repeat request acknowledge
    pub fn repeat_ack(&self) -> (r: bool)
        ensures
            r == self.spec_repeat_ack(),
    {
        self.pdi / 2 % 2 == 1
    }

    /// set the flag: repeat request acknowledge
    pub fn set_repeat_ack(&mut self, value: bool)
        ensures
            final(self).spec_repeat_ack() == value,
            final(self).pdi / 2 / 2 == old(self).pdi / 2 / 2,
            final(self).pdi % 2 == old(self).pdi % 2,
            final(self).address == old(self).address,
            final(self).length == old(self).length,
            final(self).control == old(self).control, final(self).status == old(self).status, final(self).activate == old(self).activate,
    {
        let low: u8 = self.pdi % 2;
        let high: u8 = self.pdi / 4;
        let b: u8 = if value { 1 } else { 0 };
        self.pdi = (high as u16 * 4 + b as u16 * 2 + low as u16) as u8;
    }

}
/// ETG.1000.4 table 58
#[derive(Copy, Clone, Debug, PartialEq, Eq, Structural)]
pub enum SyncMode {
    Buffered,
    Mailbox,
}

/// code of a [SyncMode] on the wire
pub open spec fn sync_mode_code(v: SyncMode) -> u8 {
    match v {
        SyncMode::Buffered => 0,
        SyncMode::Mailbox => 2,
    }
}

/// the [SyncMode] of a code on the wire, if any
pub open spec fn sync_mode_of_code(code: u8) -> Option<SyncMode> {
    match code {
        0 => Some(SyncMode::Buffered),
        2 => Some(SyncMode::Mailbox),
        _ => None,
    }
}

impl SyncMode {
    /// code on the wire
    pub fn code(self) -> (r: u8)
        ensures
            r == sync_mode_code(self),
    {
        match self {
            SyncMode::Buffered => 0,
            SyncMode::Mailbox => 2,
        }
    }

    /// the variant of a code on the wire, if any
    pub fn from_code(code: u8) -> (r: Option<Self>)
        ensures
            r == sync_mode_of_code(code),
    {
        match code {
            0 => Some(SyncMode::Buffered),
            2 => Some(SyncMode::Mailbox),
            _ => None,
        }
    }
}

/// Decoding the code of a [SyncMode] gives back the same variant.
pub proof fn law_sync_mode_code_roundtrip(v: SyncMode)
    ensures
        sync_mode_of_code(sync_mode_code(v)) == Some(v),
{
}
/// ETG.1000.4 table 58
#[derive(Copy, Clone, Debug, PartialEq, Eq, Structural)]
pub enum SyncDirection {
    /// sync manager buffer is read by the master
    Read,
    /// sync manager buffer is written by the master
    Write,
}

/// code of a [SyncDirection] on the wire
pub open spec fn sync_direction_code(v: SyncDirection) -> u8 {
    match v {
        SyncDirection::Read => 0,
        SyncDirection::Write => 1,
    }
}

/// the [SyncDirection] of a code on the wire, if any
pub open spec fn sync_direction_of_code(code: u8) -> Option<SyncDirection> {
    match code {
        0 => Some(SyncDirection::Read),
        1 => Some(SyncDirection::Write),
        _ => None,
    }
}

impl SyncDirection {
    /// code on the wire
    pub fn code(self) -> (r: u8)
        ensures
            r == sync_direction_code(self),
    {
        match self {
            SyncDirection::Read => 0,
            SyncDirection::Write => 1,
        }
    }

    /// the variant of a code on the wire, if any
    pub fn from_code(code: u8) -> (r: Option<Self>)
        ensures
            r == sync_direction_of_code(code),
    {
        match code {
            0 => Some(SyncDirection::Read),
            1 => Some(SyncDirection::Write),
            _ => None,
        }
    }
}

/// Decoding the code of a [SyncDirection] gives back the same variant.
pub proof fn law_sync_direction_code_roundtrip(v: SyncDirection)
    ensures
        sync_direction_of_code(sync_direction_code(v)) == Some(v),
{
}
/// loop control of a port
#[derive(Copy, Clone, Debug, PartialEq, Eq, Structural)]
pub enum LoopControl {
    Auto,
    AutoClose,
    AlwaysOpen,
    AlwaysClosed,
}

/// code of a [LoopControl] on the wire
pub open spec fn loop_control_code(v: LoopControl) -> u8 {
    match v {
        LoopControl::Auto => 0,
        LoopControl::AutoClose => 1,
        LoopControl::AlwaysOpen => 2,
        LoopControl::AlwaysClosed => 3,
    }
}

/// the [LoopControl] of a code on the wire, if any
pub open spec fn loop_control_of_code(code: u8) -> Option<LoopControl> {
    match code {
        0 => Some(LoopControl::Auto),
        1 => Some(LoopControl::AutoClose),
        2 => Some(LoopControl::AlwaysOpen),
        3 => Some(LoopControl::AlwaysClosed),
        _ => None,
    }
}

impl LoopControl {
    /// code on the wire
    pub fn code(self) -> (r: u8)
        ensures
            r == loop_control_code(self),
    {
        match self {
            LoopControl::Auto => 0,
            LoopControl::AutoClose => 1,
            LoopControl::AlwaysOpen => 2,
            LoopControl::AlwaysClosed => 3,
        }
    }

    /// the variant of a code on the wire, if any
    pub fn from_code(code: u8) -> (r: Option<Self>)
        ensures
            r == loop_control_of_code(code),
    {
        match code {
            0 => Some(LoopControl::Auto),
            1 => Some(LoopControl::AutoClose),
            2 => Some(LoopControl::AlwaysOpen),
            3 => Some(LoopControl::AlwaysClosed),
            _ => None,
        }
    }
}

/// Decoding the code of a [LoopControl] gives back the same variant.
pub proof fn law_loop_control_code_roundtrip(v: LoopControl)
    ensures
        loop_control_of_code(loop_control_code(v)) == Some(v),
{
}
/// kind of a slave port
#[derive(Copy, Clone, Debug, PartialEq, Eq, Structural)]
pub enum PortDescriptor {
    NotImplemented,
    NotConfigured,
    Ebus,
    Mii,
}

/// code of a [PortDescriptor] on the wire
pub open spec fn port_descriptor_code(v: PortDescriptor) -> u8 {
    match v {
        PortDescriptor::NotImplemented => 0,
        PortDescriptor::NotConfigured => 1,
        PortDescriptor::Ebus => 2,
        PortDescriptor::Mii => 3,
    }
}

/// the [PortDescriptor] of a code on the wire, if any
pub open spec fn port_descriptor_of_code(code: u8) -> Option<PortDescriptor> {
    match code {
        0 => Some(PortDescriptor::NotImplemented),
        1 => Some(PortDescriptor::NotConfigured),
        2 => Some(PortDescriptor::Ebus),
        3 => Some(PortDescriptor::Mii),
        _ => None,
    }
}

impl PortDescriptor {
    /// code on the wire
    pub fn code(self) -> (r: u8)
        ensures
            r == port_descriptor_code(self),
    {
        match self {
            PortDescriptor::NotImplemented => 0,
            PortDescriptor::NotConfigured => 1,
            PortDescriptor::Ebus => 2,
            PortDescriptor::Mii => 3,
        }
    }

    /// the variant of a code on the wire, if any
    pub fn from_code(code: u8) -> (r: Option<Self>)
        ensures
            r == port_descriptor_of_code(code),
    {
        match code {
            0 => Some(PortDescriptor::NotImplemented),
            1 => Some(PortDescriptor::NotConfigured),
            2 => Some(PortDescriptor::Ebus),
            3 => Some(PortDescriptor::Mii),
            _ => None,
        }
    }
}

/// Decoding the code of a [PortDescriptor] gives back the same variant.
pub proof fn law_port_descriptor_code_roundtrip(v: PortDescriptor)
    ensures
        port_descriptor_of_code(port_descriptor_code(v)) == Some(v),
{
}
/// difference between the local copy of the system time and the received system time
#[derive(Copy, Clone, Debug, PartialEq, Eq, Structural)]
pub struct TimeDifference {
    /// mean difference between local copy of System Time and received System Time values
    pub mean: u32,
    /// true if local copy of system time smaller than received system time
    pub sign: bool,
}

impl TimeDifference {
    /// the bits of the struct read as an integer, each field truncated to its width
    pub open spec fn raw(&self) -> nat {
        (self.mean as nat % 0x80000000)
            + (if self.sign { 1nat } else { 0nat }) * 0x80000000
    }

    /// every field fits in its width
    pub open spec fn wf(&self) -> bool {
        self.mean < 0x80000000
    }

    /// the struct whose bits read as the integer `raw`
    pub open spec fn from_raw(raw: nat) -> Self {
        TimeDifference {
            mean: (raw % 0x80000000) as u32,
            sign: (raw / 0x80000000 % 0x2) == 1,
        }
    }

    /// the bits of the struct read as an integer, each field truncated to its width
    pub fn to_bits(&self) -> (r: u64)
        ensures
            r == self.raw(),
    {
        (self.mean as u64 % 0x80000000)
            + (if self.sign { 1u64 } else { 0u64 }) * 0x80000000
    }

    /// the struct whose bits read as the integer `raw`
    pub fn from_bits(raw: u64) -> (r: Self)
        requires
            raw < 0x100000000,
        ensures
            r == Self::from_raw(raw as nat),
            r.wf(),
    {
        TimeDifference {
            mean: (raw % 0x80000000) as u32,
            sign: (raw / 0x80000000 % 0x2) == 1,
        }
    }
}

impl PduData for TimeDifference {
    const ID: TypeId = TypeId::CUSTOM;
    type Packed = [u8; 4];

    open spec fn pack_defined(len: nat, bitoffset: u8, bitsize: usize, bitordering: Endianness) -> bool {
        true
    }

    open spec fn spec_pack_slice(
        &self,
        data: Seq<u8>,
        bitoffset: u8,
        bitsize: usize,
        bitordering: Endianness,
    ) -> PackingResult<Seq<u8>> {
        bits_pack_slice_result(self.raw(), 4, data, bitoffset, bitsize)
    }

    open spec fn unpack_defined(len: nat, bitoffset: u8, bitsize: usize, bitordering: Endianness) -> bool {
        true
    }

    open spec fn spec_unpack_slice(
        src: Seq<u8>,
        bitoffset: u8,
        bitsize: usize,
        bitordering: Endianness,
    ) -> PackingResult<Self> {
        match bits_unpack_slice_result(src, 4, bitoffset, bitsize) {
            Ok(v) => Ok(Self::from_raw(v)),
            Err(e) => Err(e),
        }
    }

    open spec fn pack_whole_defined(len: nat) -> bool {
        true
    }

    open spec fn spec_pack(&self, data: Seq<u8>) -> PackingResult<Seq<u8>> {
        bits_pack_result(self.raw(), 4, data)
    }

    open spec fn unpack_whole_defined(len: nat) -> bool {
        true
    }

    open spec fn spec_unpack(src: Seq<u8>) -> PackingResult<Self> {
        match bits_unpack_result(src, 4) {
            Ok(v) => Ok(Self::from_raw(v)),
            Err(e) => Err(e),
        }
    }

    fn pack(&self, data: &mut [u8]) -> (r: PackingResult<()>) {
        proof {
            lemma2_to64();
        }
        pack_bits(self.to_bits(), 4, data)
    }

    fn unpack(src: &[u8]) -> (r: PackingResult<Self>) {
        proof {
            lemma2_to64();
            lemma2_to64_rest();
        }
        match unpack_bits(src, 4) {
            Ok(v) => Ok(Self::from_bits(v)),
            Err(e) => Err(e),
        }
    }

    fn pack_slice(
        &self,
        data: &mut [u8],
        bitoffset: u8,
        bitsize: usize,
        bitordering: Endianness,
    ) -> (r: PackingResult<()>) {
        if bitoffset != 0 {
            return Err(PackingError::BadAlignment(bitoffset as usize, "Bit offset must be at 0 on this implementation"));
        }
        if bitsize != 0 {
            return Err(PackingError::BadSize(bitsize, "Bit size must be at 0 on this implementation"));
        }
        self.pack(data)
    }

    fn unpack_slice(src: &[u8], bitoffset: u8, bitsize: usize, bitordering: Endianness) -> (r: PackingResult<Self>) {
        if bitoffset != 0 {
            return Err(PackingError::BadAlignment(bitoffset as usize, "Bit offset must be at 0 on this implementation"));
        }
        if bitsize != 0 {
            return Err(PackingError::BadSize(bitsize, "Bit size must be at 0 on this implementation"));
        }
        Self::unpack(src)
    }
}

/// The bits of a [TimeDifference] whose fields fit in their widths, read back as a struct, give the
/// same struct; and any integer of its width, turned into a struct and back, is unchanged.
pub proof fn law_time_difference_bits_roundtrip(h: TimeDifference, raw: nat)
    ensures
        h.wf() ==> TimeDifference::from_raw(h.raw()) == h,
        raw < 0x100000000 ==> TimeDifference::from_raw(raw).raw() == raw,
{
}
/// ETG.1000.4 table 31: information about the slave controller
#[derive(Copy, Clone, Debug, PartialEq, Eq, Structural)]
pub struct DLInformation {
    /// type of the slave controller
    pub ty: u8,
    /// (major revision) revision of the slave controller
    pub revision: u8,
    /// (minor revision) build number of the slave controller
    pub build: u16,
    /// Number of supported FMMU entities (1 to 10)
    pub fmmus: u8,
    /// Number of supported Sync Manager channels (1 to 10)
    pub sync_managers: u8,
    /// RAM size in koctet (1-60)
    pub ram_size: u8,
    /// kind of each port, 2 bits each (a [PortDescriptor] code)
    pub ports: u8,
    /// bit 0 fmmu bit operation not supported, 1 reserved registers not supported, 2 dc supported, 3 dc range is 64 bit, 4 ebus low jitter, 5 ebus enhanced link detection, 6 mii enhanced link detection, 7 separate fcs errors, 8 dc sync activation enhanced, 9 LRW not supported, 10 BRW APRW FPRW not supported, 11 special fmmu config
    pub features: u16,
}

impl DLInformation {
    /// the low bytes of the struct read as an integer
    pub open spec fn low_raw(&self) -> nat {
        (self.ty as nat % 0x100)
            + (self.revision as nat % 0x100) * 0x100
            + (self.build as nat % 0x10000) * 0x10000
            + (self.fmmus as nat % 0x100) * 0x100000000
            + (self.sync_managers as nat % 0x100) * 0x10000000000
            + (self.ram_size as nat % 0x100) * 0x1000000000000
            + (self.ports as nat % 0x100) * 0x100000000000000
    }

    fn low_bits(&self) -> (r: u64)
        ensures
            r == self.low_raw(),
    {
        (self.ty as u64 % 0x100)
            + (self.revision as u64 % 0x100) * 0x100
            + (self.build as u64 % 0x10000) * 0x10000
            + (self.fmmus as u64 % 0x100) * 0x100000000
            + (self.sync_managers as u64 % 0x100) * 0x10000000000
            + (self.ram_size as u64 % 0x100) * 0x1000000000000
            + (self.ports as u64 % 0x100) * 0x100000000000000
    }

    /// the high bytes of the struct read as an integer
    pub open spec fn high_raw(&self) -> nat {
        (self.features as nat % 0x10000)
    }

    fn high_bits(&self) -> (r: u64)
        ensures
            r == self.high_raw(),
    {
        (self.features as u64 % 0x10000)
    }

    /// every field fits in its width
    pub open spec fn wf(&self) -> bool {
        true
    }

    /// the struct whose first 8 bytes read as `low` and next ones as `high`
    pub open spec fn from_parts(low: nat, high: nat) -> Self {
        DLInformation {
            ty: (low % 0x100) as u8,
            revision: (low / 0x100 % 0x100) as u8,
            build: (low / 0x10000 % 0x10000) as u16,
            fmmus: (low / 0x100000000 % 0x100) as u8,
            sync_managers: (low / 0x10000000000 % 0x100) as u8,
            ram_size: (low / 0x1000000000000 % 0x100) as u8,
            ports: (low / 0x100000000000000 % 0x100) as u8,
            features: (high % 0x10000) as u16,
        }
    }

    fn from_bits(low: u64, high: u64) -> (r: Self)
        requires
            high < 0x10000,
        ensures
            r == Self::from_parts(low as nat, high as nat),
            r.wf(),
    {
        DLInformation {
            ty: (low % 0x100) as u8,
            revision: (low / 0x100 % 0x100) as u8,
            build: (low / 0x10000 % 0x10000) as u16,
            fmmus: (low / 0x100000000 % 0x100) as u8,
            sync_managers: (low / 0x10000000000 % 0x100) as u8,
            ram_size: (low / 0x1000000000000 % 0x100) as u8,
            ports: (low / 0x100000000000000 % 0x100) as u8,
            features: (high % 0x10000) as u16,
        }
    }

    /// bytes of the struct on the wire
    pub open spec fn bytes(&self) -> Seq<u8> {
        le_bytes(self.low_raw(), 8) + le_bytes(self.high_raw(), 2)
    }
}

impl PduData for DLInformation {
    const ID: TypeId = TypeId::CUSTOM;
    type Packed = [u8; 10];

    open spec fn pack_defined(len: nat, bitoffset: u8, bitsize: usize, bitordering: Endianness) -> bool {
        true
    }

    open spec fn spec_pack_slice(
        &self,
        data: Seq<u8>,
        bitoffset: u8,
        bitsize: usize,
        bitordering: Endianness,
    ) -> PackingResult<Seq<u8>> {
        if bitoffset != 0 {
            Err(PackingError::BadAlignment(bitoffset as usize, "Bit offset must be at 0 on this implementation"))
        } else if bitsize != 0 {
            Err(PackingError::BadSize(bitsize, "Bit size must be at 0 on this implementation"))
        } else {
            self.spec_pack(data)
        }
    }

    open spec fn unpack_defined(len: nat, bitoffset: u8, bitsize: usize, bitordering: Endianness) -> bool {
        true
    }

    open spec fn spec_unpack_slice(
        src: Seq<u8>,
        bitoffset: u8,
        bitsize: usize,
        bitordering: Endianness,
    ) -> PackingResult<Self> {
        if bitoffset != 0 {
            Err(PackingError::BadAlignment(bitoffset as usize, "Bit offset must be at 0 on this implementation"))
        } else if bitsize != 0 {
            Err(PackingError::BadSize(bitsize, "Bit size must be at 0 on this implementation"))
        } else {
            Self::spec_unpack(src)
        }
    }

    open spec fn pack_whole_defined(len: nat) -> bool {
        true
    }

    open spec fn spec_pack(&self, data: Seq<u8>) -> PackingResult<Seq<u8>> {
        if data.len() < 10 {
            Err(PackingError::BadSize(data.len() as usize, "bilge struct needs exact size"))
        } else {
            Ok(self.bytes() + data.subrange(10, data.len() as int))
        }
    }

    open spec fn unpack_whole_defined(len: nat) -> bool {
        true
    }

    open spec fn spec_unpack(src: Seq<u8>) -> PackingResult<Self> {
        if src.len() < 10 {
            Err(PackingError::BadSize(src.len() as usize, "bilge struct needs exact size"))
        } else {
            Ok(Self::from_parts(le_value(src.subrange(0, 8)), le_value(src.subrange(8, 10))))
        }
    }

    fn pack(&self, data: &mut [u8]) -> (r: PackingResult<()>) {
        if data.len() < 10 {
            return Err(PackingError::BadSize(data.len(), "bilge struct needs exact size"));
        }
        let low = crate::numbers::le_bytes_of(self.low_bits(), 8);
        let high = crate::numbers::le_bytes_of(self.high_bits(), 2);
        proof {
            crate::numbers::lemma_le_bytes_len(self.low_raw(), 8);
            crate::numbers::lemma_le_bytes_len(self.high_raw(), 2);
        }
        let ghost d0 = data@;
        let mut i: usize = 0;
        while i < 10
            invariant
                i <= 10,
                10 <= d0.len(),
                low@.len() == 8,
                high@.len() == 2,
                data@.len() == d0.len(),
                forall|j: int| 0 <= j < d0.len() ==> #[trigger] data@[j] == if j < i {
                    (low@ + high@)[j]
                } else {
                    d0[j]
                },
            decreases 10 - i,
        {
            if i < 8 {
                data[i] = low[i];
            } else {
                data[i] = high[i - 8];
            }
            i = i + 1;
        }
        proof {
            assert(data@ =~= self.bytes() + d0.subrange(10, d0.len() as int));
        }
        Ok(())
    }

    fn unpack(src: &[u8]) -> (r: PackingResult<Self>) {
        if src.len() < 10 {
            return Err(PackingError::BadSize(src.len(), "bilge struct needs exact size"));
        }
        let low = crate::numbers::le_value_of(vstd::slice::slice_subrange(src, 0, 8));
        let high = crate::numbers::le_value_of(vstd::slice::slice_subrange(src, 8, 10));
        proof {
            crate::numbers::lemma_le_value_bound(src@.subrange(8, 10));
            lemma2_to64();
        }
        Ok(Self::from_bits(low, high))
    }

    fn pack_slice(
        &self,
        data: &mut [u8],
        bitoffset: u8,
        bitsize: usize,
        bitordering: Endianness,
    ) -> (r: PackingResult<()>) {
        if bitoffset != 0 {
            return Err(PackingError::BadAlignment(bitoffset as usize, "Bit offset must be at 0 on this implementation"));
        }
        if bitsize != 0 {
            return Err(PackingError::BadSize(bitsize, "Bit size must be at 0 on this implementation"));
        }
        self.pack(data)
    }

    fn unpack_slice(src: &[u8], bitoffset: u8, bitsize: usize, bitordering: Endianness) -> (r: PackingResult<Self>) {
        if bitoffset != 0 {
            return Err(PackingError::BadAlignment(bitoffset as usize, "Bit offset must be at 0 on this implementation"));
        }
        if bitsize != 0 {
            return Err(PackingError::BadSize(bitsize, "Bit size must be at 0 on this implementation"));
        }
        Self::unpack(src)
    }
}
/// range of the distributed clock system time
#[derive(Copy, Clone, Debug, PartialEq, Eq, Structural)]
pub enum DcRange {
    /// default
    Bit32,
    /// 64 bit for system time, system time offset and receive time processing unit
    Bit64,
}

/// code of a [DcRange] on the wire
pub open spec fn dc_range_code(v: DcRange) -> u8 {
    match v {
        DcRange::Bit32 => 0,
        DcRange::Bit64 => 1,
    }
}

/// the [DcRange] of a code on the wire, if any
pub open spec fn dc_range_of_code(code: u8) -> Option<DcRange> {
    match code {
        0 => Some(DcRange::Bit32),
        1 => Some(DcRange::Bit64),
        _ => None,
    }
}

impl DcRange {
    /// code on the wire
    pub fn code(self) -> (r: u8)
        ensures
            r == dc_range_code(self),
    {
        match self {
            DcRange::Bit32 => 0,
            DcRange::Bit64 => 1,
        }
    }

    /// the variant of a code on the wire, if any
    pub fn from_code(code: u8) -> (r: Option<Self>)
        ensures
            r == dc_range_of_code(code),
    {
        match code {
            0 => Some(DcRange::Bit32),
            1 => Some(DcRange::Bit64),
            _ => None,
        }
    }
}

/// Decoding the code of a [DcRange] gives back the same variant.
pub proof fn law_dc_range_code_roundtrip(v: DcRange)
    ensures
        dc_range_of_code(dc_range_code(v)) == Some(v),
{
}
/// what a slave does with non-ethercat frames (ETG.1000.4 table 33)
#[derive(Copy, Clone, Debug, PartialEq, Eq, Structural)]
pub enum Forwarding {
    /// EtherCAT frames are processed, non-EtherCAT frames are forwarded without modification
    Transmit,
    /// EtherCAT frames are processed, non-EtherCAT frames are destroyed
    Filter,
}

/// code of a [Forwarding] on the wire
pub open spec fn forwarding_code(v: Forwarding) -> u8 {
    match v {
        Forwarding::Transmit => 0,
        Forwarding::Filter => 1,
    }
}

/// the [Forwarding] of a code on the wire, if any
pub open spec fn forwarding_of_code(code: u8) -> Option<Forwarding> {
    match code {
        0 => Some(Forwarding::Transmit),
        1 => Some(Forwarding::Filter),
        _ => None,
    }
}

impl Forwarding {
    /// code on the wire
    pub fn code(self) -> (r: u8)
        ensures
            r == forwarding_code(self),
    {
        match self {
            Forwarding::Transmit => 0,
            Forwarding::Filter => 1,
        }
    }

    /// the variant of a code on the wire, if any
    pub fn from_code(code: u8) -> (r: Option<Self>)
        ensures
            r == forwarding_of_code(code),
    {
        match code {
            0 => Some(Forwarding::Transmit),
            1 => Some(Forwarding::Filter),
            _ => None,
        }
    }
}

/// Decoding the code of a [Forwarding] gives back the same variant.
pub proof fn law_forwarding_code_roundtrip(v: Forwarding)
    ensures
        forwarding_of_code(forwarding_code(v)) == Some(v),
{
}
/// owner of the SII, the `owner` bit of [SiiAccess]
#[derive(Copy, Clone, Debug, PartialEq, Eq, Structural)]
pub enum SiiOwner {
    EthercatDL,
    Pdi,
}

/// code of a [SiiOwner] on the wire
pub open spec fn sii_owner_code(v: SiiOwner) -> u8 {
    match v {
        SiiOwner::EthercatDL => 0,
        SiiOwner::Pdi => 1,
    }
}

/// the [SiiOwner] of a code on the wire, if any
pub open spec fn sii_owner_of_code(code: u8) -> Option<SiiOwner> {
    match code {
        0 => Some(SiiOwner::EthercatDL),
        1 => Some(SiiOwner::Pdi),
        _ => None,
    }
}

impl SiiOwner {
    /// code on the wire
    pub fn code(self) -> (r: u8)
        ensures
            r == sii_owner_code(self),
    {
        match self {
            SiiOwner::EthercatDL => 0,
            SiiOwner::Pdi => 1,
        }
    }

    /// the variant of a code on the wire, if any
    pub fn from_code(code: u8) -> (r: Option<Self>)
        ensures
            r == sii_owner_of_code(code),
    {
        match code {
            0 => Some(SiiOwner::EthercatDL),
            1 => Some(SiiOwner::Pdi),
            _ => None,
        }
    }
}

/// Decoding the code of a [SiiOwner] gives back the same variant.
pub proof fn law_sii_owner_code_roundtrip(v: SiiOwner)
    ensures
        sii_owner_of_code(sii_owner_code(v)) == Some(v),
{
}
/// number of bytes per SII read transaction, the `read_size` bit of [SiiControl]
#[derive(Copy, Clone, Debug, PartialEq, Eq, Structural)]
pub enum SiiTransaction {
    Bytes4,
    Bytes8,
}

/// code of a [SiiTransaction] on the wire
pub open spec fn sii_transaction_code(v: SiiTransaction) -> u8 {
    match v {
        SiiTransaction::Bytes4 => 0,
        SiiTransaction::Bytes8 => 1,
    }
}

/// the [SiiTransaction] of a code on the wire, if any
pub open spec fn sii_transaction_of_code(code: u8) -> Option<SiiTransaction> {
    match code {
        0 => Some(SiiTransaction::Bytes4),
        1 => Some(SiiTransaction::Bytes8),
        _ => None,
    }
}

impl SiiTransaction {
    /// code on the wire
    pub fn code(self) -> (r: u8)
        ensures
            r == sii_transaction_code(self),
    {
        match self {
            SiiTransaction::Bytes4 => 0,
            SiiTransaction::Bytes8 => 1,
        }
    }

    /// the variant of a code on the wire, if any
    pub fn from_code(code: u8) -> (r: Option<Self>)
        ensures
            r == sii_transaction_of_code(code),
    {
        match code {
            0 => Some(SiiTransaction::Bytes4),
            1 => Some(SiiTransaction::Bytes8),
            _ => None,
        }
    }
}

/// Decoding the code of a [SiiTransaction] gives back the same variant.
pub proof fn law_sii_transaction_code_roundtrip(v: SiiTransaction)
    ensures
        sii_transaction_of_code(sii_transaction_code(v)) == Some(v),
{
}
/// unit of SII addresses, the `address_unit` bit of [SiiControl]
#[derive(Copy, Clone, Debug, PartialEq, Eq, Structural)]
pub enum SiiUnit {
    Byte,
    Word,
}

/// code of a [SiiUnit] on the wire
pub open spec fn sii_unit_code(v: SiiUnit) -> u8 {
    match v {
        SiiUnit::Byte => 0,
        SiiUnit::Word => 1,
    }
}

/// the [SiiUnit] of a code on the wire, if any
pub open spec fn sii_unit_of_code(code: u8) -> Option<SiiUnit> {
    match code {
        0 => Some(SiiUnit::Byte),
        1 => Some(SiiUnit::Word),
        _ => None,
    }
}

impl SiiUnit {
    /// code on the wire
    pub fn code(self) -> (r: u8)
        ensures
            r == sii_unit_code(self),
    {
        match self {
            SiiUnit::Byte => 0,
            SiiUnit::Word => 1,
        }
    }

    /// the variant of a code on the wire, if any
    pub fn from_code(code: u8) -> (r: Option<Self>)
        ensures
            r == sii_unit_of_code(code),
    {
        match code {
            0 => Some(SiiUnit::Byte),
            1 => Some(SiiUnit::Word),
            _ => None,
        }
    }
}

/// Decoding the code of a [SiiUnit] gives back the same variant.
pub proof fn law_sii_unit_code_roundtrip(v: SiiUnit)
    ensures
        sii_unit_of_code(sii_unit_code(v)) == Some(v),
{
}
/// error counters of the 4 ports (ETG.1000.4 table 40)
#[derive(Copy, Clone, Debug, PartialEq, Eq, Structural)]
pub struct PortsErrorCount {
    /// port 0
    pub port0: PortErrorCount,
    /// port 1
    pub port1: PortErrorCount,
    /// port 2
    pub port2: PortErrorCount,
    /// port 3
    pub port3: PortErrorCount,
}

impl PortsErrorCount {
    /// bytes of the struct on the wire
    #[verifier::opaque]
    pub open spec fn bytes(&self) -> Seq<u8> {
        seq![
            (self.port0.raw() % 256) as u8,
            (self.port0.raw() / 256 % 256) as u8,
            (self.port1.raw() % 256) as u8,
            (self.port1.raw() / 256 % 256) as u8,
            (self.port2.raw() % 256) as u8,
            (self.port2.raw() / 256 % 256) as u8,
            (self.port3.raw() % 256) as u8,
            (self.port3.raw() / 256 % 256) as u8,
        ]
    }

    /// the struct read from the first bytes of `s`
    pub open spec fn from_bytes(s: Seq<u8>) -> Self {
        PortsErrorCount {
            port0: PortErrorCount::from_raw(s[0] as nat + s[1] as nat * 256),
            port1: PortErrorCount::from_raw(s[2] as nat + s[3] as nat * 256),
            port2: PortErrorCount::from_raw(s[4] as nat + s[5] as nat * 256),
            port3: PortErrorCount::from_raw(s[6] as nat + s[7] as nat * 256),
        }
    }

    fn to_vec(&self) -> (r: Vec<u8>)
        ensures
            r@ == self.bytes(),
            r@.len() == 8,
    {
        let r: Vec<u8> = vec![
            (self.port0.to_bits() % 256) as u8,
            (self.port0.to_bits() / 256 % 256) as u8,
            (self.port1.to_bits() % 256) as u8,
            (self.port1.to_bits() / 256 % 256) as u8,
            (self.port2.to_bits() % 256) as u8,
            (self.port2.to_bits() / 256 % 256) as u8,
            (self.port3.to_bits() % 256) as u8,
            (self.port3.to_bits() / 256 % 256) as u8,
        ];
        proof {
            reveal(PortsErrorCount::bytes);
            assert(r@ =~= self.bytes());
        }
        r
    }

    fn from_slice(src: &[u8]) -> (r: Self)
        requires
            src@.len() >= 8,
        ensures
            r == Self::from_bytes(src@),
    {
        PortsErrorCount {
            port0: PortErrorCount::from_bits(src[0] as u64 + src[1] as u64 * 256),
            port1: PortErrorCount::from_bits(src[2] as u64 + src[3] as u64 * 256),
            port2: PortErrorCount::from_bits(src[4] as u64 + src[5] as u64 * 256),
            port3: PortErrorCount::from_bits(src[6] as u64 + src[7] as u64 * 256),
        }
    }
}

impl PduData for PortsErrorCount {
    const ID: TypeId = TypeId::CUSTOM;
    type Packed = [u8; 8];

    open spec fn pack_defined(len: nat, bitoffset: u8, bitsize: usize, bitordering: Endianness) -> bool {
        true
    }

    open spec fn spec_pack_slice(
        &self,
        data: Seq<u8>,
        bitoffset: u8,
        bitsize: usize,
        bitordering: Endianness,
    ) -> PackingResult<Seq<u8>> {
        if bitoffset != 0 {
            Err(PackingError::BadAlignment(bitoffset as usize, "Offset not null"))
        } else if bitsize > data.len() {
            Err(PackingError::BadSize(bitsize, "Size too big for the slice"))
        } else {
            self.spec_pack(data)
        }
    }

    open spec fn unpack_defined(len: nat, bitoffset: u8, bitsize: usize, bitordering: Endianness) -> bool {
        true
    }

    open spec fn spec_unpack_slice(
        src: Seq<u8>,
        bitoffset: u8,
        bitsize: usize,
        bitordering: Endianness,
    ) -> PackingResult<Self> {
        if bitoffset != 0 {
            Err(PackingError::BadAlignment(bitoffset as usize, "Offset not null"))
        } else if bitsize > src.len() {
            Err(PackingError::BadSize(bitsize, "Size too big for the slice"))
        } else {
            Self::spec_unpack(src)
        }
    }

    open spec fn pack_whole_defined(len: nat) -> bool {
        true
    }

    open spec fn spec_pack(&self, data: Seq<u8>) -> PackingResult<Seq<u8>> {
        if data.len() < 8 {
            Err(PackingError::BadSize(data.len() as usize, "not enough bytes for struct"))
        } else {
            Ok(self.bytes() + data.subrange(8, data.len() as int))
        }
    }

    open spec fn unpack_whole_defined(len: nat) -> bool {
        true
    }

    open spec fn spec_unpack(src: Seq<u8>) -> PackingResult<Self> {
        if src.len() < 8 {
            Err(PackingError::BadSize(src.len() as usize, "not enough bytes for struct"))
        } else {
            Ok(Self::from_bytes(src))
        }
    }

    fn pack(&self, data: &mut [u8]) -> (r: PackingResult<()>) {
        if data.len() < 8 {
            return Err(PackingError::BadSize(data.len(), "not enough bytes for struct"));
        }
        let bytes = self.to_vec();
        let ghost d0 = data@;
        let mut i: usize = 0;
        while i < 8
            invariant
                i <= 8,
                8 <= d0.len(),
                bytes@ == self.bytes(),
                bytes@.len() == 8,
                data@.len() == d0.len(),
                forall|j: int| 0 <= j < d0.len() ==> #[trigger] data@[j] == if j < i {
                    bytes@[j]
                } else {
                    d0[j]
                },
            decreases 8 - i,
        {
            data[i] = bytes[i];
            i = i + 1;
        }
        proof {
            assert(data@ =~= self.bytes() + d0.subrange(8, d0.len() as int));
        }
        Ok(())
    }

    fn unpack(src: &[u8]) -> (r: PackingResult<Self>) {
        if src.len() < 8 {
            return Err(PackingError::BadSize(src.len(), "not enough bytes for struct"));
        }
        Ok(Self::from_slice(src))
    }

    fn pack_slice(
        &self,
        data: &mut [u8],
        bitoffset: u8,
        bitsize: usize,
        bitordering: Endianness,
    ) -> (r: PackingResult<()>) {
        if bitoffset != 0 {
            return Err(PackingError::BadAlignment(bitoffset as usize, "Offset not null"));
        }
        if bitsize > data.len() {
            return Err(PackingError::BadSize(bitsize, "Size too big for the slice"));
        }
        self.pack(data)
    }

    fn unpack_slice(src: &[u8], bitoffset: u8, bitsize: usize, bitordering: Endianness) -> (r: PackingResult<Self>) {
        if bitoffset != 0 {
            return Err(PackingError::BadAlignment(bitoffset as usize, "Offset not null"));
        }
        if bitsize > src.len() {
            return Err(PackingError::BadSize(bitsize, "Size too big for the slice"));
        }
        Self::unpack(src)
    }
}
/// distributed clock registers of a slave (ETG.1000.4 table 60)
#[derive(Copy, Clone, Debug, PartialEq, Eq, Structural)]
pub struct DistributedClock {
    /// local time (in ns) latched at receive begin on port 0 by a write access to port 0
    pub received_time_0: u32,
    /// local time (in ns) latched at receive begin on port 1
    pub received_time_1: u32,
    /// local time (in ns) latched at receive begin on port 2
    pub received_time_2: u32,
    /// local time (in ns) latched at receive begin on port 3
    pub received_time_3: u32,
    /// local system time (in ns) latched at receive begin at the processing unit
    pub system_time: u64,
    /// local time (in ns) at receive begin at the processing unit of a PDU writing port 0
    pub receive_time_unit: u64,
    /// offset between the local time (in ns) and the local system time (in ns)
    pub system_offset: u64,
    /// offset between the reference system time (in ns) and the local system time (in ns)
    pub system_delay: u32,
    /// difference between the local copy of the system time and the received system time
    pub system_difference: TimeDifference,
    /// reserved bytes
    pub reserved0: u32,
    /// reserved bytes
    pub reserved1: u32,
    /// reserved bytes
    pub reserved2: u32,
}

impl DistributedClock {
    /// bytes of the struct on the wire
    #[verifier::opaque]
    pub open spec fn bytes(&self) -> Seq<u8> {
        seq![
            (self.received_time_0 % 256) as u8,
            (self.received_time_0 / 0x100 % 256) as u8,
            (self.received_time_0 / 0x10000 % 256) as u8,
            (self.received_time_0 / 0x1000000 % 256) as u8,
            (self.received_time_1 % 256) as u8,
            (self.received_time_1 / 0x100 % 256) as u8,
            (self.received_time_1 / 0x10000 % 256) as u8,
            (self.received_time_1 / 0x1000000 % 256) as u8,
            (self.received_time_2 % 256) as u8,
            (self.received_time_2 / 0x100 % 256) as u8,
            (self.received_time_2 / 0x10000 % 256) as u8,
            (self.received_time_2 / 0x1000000 % 256) as u8,
            (self.received_time_3 % 256) as u8,
            (self.received_time_3 / 0x100 % 256) as u8,
            (self.received_time_3 / 0x10000 % 256) as u8,
            (self.received_time_3 / 0x1000000 % 256) as u8,
            (self.system_time % 256) as u8,
            (self.system_time / 0x100 % 256) as u8,
            (self.system_time / 0x10000 % 256) as u8,
            (self.system_time / 0x1000000 % 256) as u8,
            (self.system_time / 0x100000000 % 256) as u8,
            (self.system_time / 0x10000000000 % 256) as u8,
            (self.system_time / 0x1000000000000 % 256) as u8,
            (self.system_time / 0x100000000000000 % 256) as u8,
            (self.receive_time_unit % 256) as u8,
            (self.receive_time_unit / 0x100 % 256) as u8,
            (self.receive_time_unit / 0x10000 % 256) as u8,
            (self.receive_time_unit / 0x1000000 % 256) as u8,
            (self.receive_time_unit / 0x100000000 % 256) as u8,
            (self.receive_time_unit / 0x10000000000 % 256) as u8,
            (self.receive_time_unit / 0x1000000000000 % 256) as u8,
            (self.receive_time_unit / 0x100000000000000 % 256) as u8,
            (self.system_offset % 256) as u8,
            (self.system_offset / 0x100 % 256) as u8,
            (self.system_offset / 0x10000 % 256) as u8,
            (self.system_offset / 0x1000000 % 256) as u8,
            (self.system_offset / 0x100000000 % 256) as u8,
            (self.system_offset / 0x10000000000 % 256) as u8,
            (self.system_offset / 0x1000000000000 % 256) as u8,
            (self.system_offset / 0x100000000000000 % 256) as u8,
            (self.system_delay % 256) as u8,
            (self.system_delay / 0x100 % 256) as u8,
            (self.system_delay / 0x10000 % 256) as u8,
            (self.system_delay / 0x1000000 % 256) as u8,
            (self.system_difference.raw() % 256) as u8,
            (self.system_difference.raw() / 0x100 % 256) as u8,
            (self.system_difference.raw() / 0x10000 % 256) as u8,
            (self.system_difference.raw() / 0x1000000 % 256) as u8,
            (self.reserved0 % 256) as u8,
            (self.reserved0 / 0x100 % 256) as u8,
            (self.reserved0 / 0x10000 % 256) as u8,
            (self.reserved0 / 0x1000000 % 256) as u8,
            (self.reserved1 % 256) as u8,
            (self.reserved1 / 0x100 % 256) as u8,
            (self.reserved1 / 0x10000 % 256) as u8,
            (self.reserved1 / 0x1000000 % 256) as u8,
            (self.reserved2 % 256) as u8,
            (self.reserved2 / 0x100 % 256) as u8,
            (self.reserved2 / 0x10000 % 256) as u8,
            (self.reserved2 / 0x1000000 % 256) as u8,
        ]
    }

    /// the struct read from the first bytes of `s`
    pub open spec fn from_bytes(s: Seq<u8>) -> Self {
        DistributedClock {
            received_time_0: (s[0] as int + s[1] as int * 0x100 + s[2] as int * 0x10000 + s[3] as int * 0x1000000) as u32,
            received_time_1: (s[4] as int + s[5] as int * 0x100 + s[6] as int * 0x10000 + s[7] as int * 0x1000000) as u32,
            received_time_2: (s[8] as int + s[9] as int * 0x100 + s[10] as int * 0x10000 + s[11] as int * 0x1000000) as u32,
            received_time_3: (s[12] as int + s[13] as int * 0x100 + s[14] as int * 0x10000 + s[15] as int * 0x1000000) as u32,
            system_time: (s[16] as int + s[17] as int * 0x100 + s[18] as int * 0x10000 + s[19] as int * 0x1000000 + s[20] as int * 0x100000000 + s[21] as int * 0x10000000000 + s[22] as int * 0x1000000000000 + s[23] as int * 0x100000000000000) as u64,
            receive_time_unit: (s[24] as int + s[25] as int * 0x100 + s[26] as int * 0x10000 + s[27] as int * 0x1000000 + s[28] as int * 0x100000000 + s[29] as int * 0x10000000000 + s[30] as int * 0x1000000000000 + s[31] as int * 0x100000000000000) as u64,
            system_offset: (s[32] as int + s[33] as int * 0x100 + s[34] as int * 0x10000 + s[35] as int * 0x1000000 + s[36] as int * 0x100000000 + s[37] as int * 0x10000000000 + s[38] as int * 0x1000000000000 + s[39] as int * 0x100000000000000) as u64,
            system_delay: (s[40] as int + s[41] as int * 0x100 + s[42] as int * 0x10000 + s[43] as int * 0x1000000) as u32,
            system_difference: TimeDifference::from_raw(s[44] as nat + s[45] as nat * 0x100 + s[46] as nat * 0x10000 + s[47] as nat * 0x1000000),
            reserved0: (s[48] as int + s[49] as int * 0x100 + s[50] as int * 0x10000 + s[51] as int * 0x1000000) as u32,
            reserved1: (s[52] as int + s[53] as int * 0x100 + s[54] as int * 0x10000 + s[55] as int * 0x1000000) as u32,
            reserved2: (s[56] as int + s[57] as int * 0x100 + s[58] as int * 0x10000 + s[59] as int * 0x1000000) as u32,
        }
    }

    fn to_vec(&self) -> (r: Vec<u8>)
        ensures
            r@ == self.bytes(),
            r@.len() == 60,
    {
        let r: Vec<u8> = vec![
            (self.received_time_0 % 256) as u8,
            (self.received_time_0 / 0x100 % 256) as u8,
            (self.received_time_0 / 0x10000 % 256) as u8,
            (self.received_time_0 / 0x1000000 % 256) as u8,
            (self.received_time_1 % 256) as u8,
            (self.received_time_1 / 0x100 % 256) as u8,
            (self.received_time_1 / 0x10000 % 256) as u8,
            (self.received_time_1 / 0x1000000 % 256) as u8,
            (self.received_time_2 % 256) as u8,
            (self.received_time_2 / 0x100 % 256) as u8,
            (self.received_time_2 / 0x10000 % 256) as u8,
            (self.received_time_2 / 0x1000000 % 256) as u8,
            (self.received_time_3 % 256) as u8,
            (self.received_time_3 / 0x100 % 256) as u8,
            (self.received_time_3 / 0x10000 % 256) as u8,
            (self.received_time_3 / 0x1000000 % 256) as u8,
            (self.system_time % 256) as u8,
            (self.system_time / 0x100 % 256) as u8,
            (self.system_time / 0x10000 % 256) as u8,
            (self.system_time / 0x1000000 % 256) as u8,
            (self.system_time / 0x100000000 % 256) as u8,
            (self.system_time / 0x10000000000 % 256) as u8,
            (self.system_time / 0x1000000000000 % 256) as u8,
            (self.system_time / 0x100000000000000 % 256) as u8,
            (self.receive_time_unit % 256) as u8,
            (self.receive_time_unit / 0x100 % 256) as u8,
            (self.receive_time_unit / 0x10000 % 256) as u8,
            (self.receive_time_unit / 0x1000000 % 256) as u8,
            (self.receive_time_unit / 0x100000000 % 256) as u8,
            (self.receive_time_unit / 0x10000000000 % 256) as u8,
            (self.receive_time_unit / 0x1000000000000 % 256) as u8,
            (self.receive_time_unit / 0x100000000000000 % 256) as u8,
            (self.system_offset % 256) as u8,
            (self.system_offset / 0x100 % 256) as u8,
            (self.system_offset / 0x10000 % 256) as u8,
            (self.system_offset / 0x1000000 % 256) as u8,
            (self.system_offset / 0x100000000 % 256) as u8,
            (self.system_offset / 0x10000000000 % 256) as u8,
            (self.system_offset / 0x1000000000000 % 256) as u8,
            (self.system_offset / 0x100000000000000 % 256) as u8,
            (self.system_delay % 256) as u8,
            (self.system_delay / 0x100 % 256) as u8,
            (self.system_delay / 0x10000 % 256) as u8,
            (self.system_delay / 0x1000000 % 256) as u8,
            (self.system_difference.to_bits() % 256) as u8,
            (self.system_difference.to_bits() / 0x100 % 256) as u8,
            (self.system_difference.to_bits() / 0x10000 % 256) as u8,
            (self.system_difference.to_bits() / 0x1000000 % 256) as u8,
            (self.reserved0 % 256) as u8,
            (self.reserved0 / 0x100 % 256) as u8,
            (self.reserved0 / 0x10000 % 256) as u8,
            (self.reserved0 / 0x1000000 % 256) as u8,
            (self.reserved1 % 256) as u8,
            (self.reserved1 / 0x100 % 256) as u8,
            (self.reserved1 / 0x10000 % 256) as u8,
            (self.reserved1 / 0x1000000 % 256) as u8,
            (self.reserved2 % 256) as u8,
            (self.reserved2 / 0x100 % 256) as u8,
            (self.reserved2 / 0x10000 % 256) as u8,
            (self.reserved2 / 0x1000000 % 256) as u8,
        ];
        proof {
            reveal(DistributedClock::bytes);
            assert(r@ =~= self.bytes());
        }
        r
    }

    fn from_slice(src: &[u8]) -> (r: Self)
        requires
            src@.len() >= 60,
        ensures
            r == Self::from_bytes(src@),
    {
        DistributedClock {
            received_time_0: src[0] as u32 + src[1] as u32 * 0x100 + src[2] as u32 * 0x10000 + src[3] as u32 * 0x1000000,
            received_time_1: src[4] as u32 + src[5] as u32 * 0x100 + src[6] as u32 * 0x10000 + src[7] as u32 * 0x1000000,
            received_time_2: src[8] as u32 + src[9] as u32 * 0x100 + src[10] as u32 * 0x10000 + src[11] as u32 * 0x1000000,
            received_time_3: src[12] as u32 + src[13] as u32 * 0x100 + src[14] as u32 * 0x10000 + src[15] as u32 * 0x1000000,
            system_time: src[16] as u64 + src[17] as u64 * 0x100 + src[18] as u64 * 0x10000 + src[19] as u64 * 0x1000000 + src[20] as u64 * 0x100000000 + src[21] as u64 * 0x10000000000 + src[22] as u64 * 0x1000000000000 + src[23] as u64 * 0x100000000000000,
            receive_time_unit: src[24] as u64 + src[25] as u64 * 0x100 + src[26] as u64 * 0x10000 + src[27] as u64 * 0x1000000 + src[28] as u64 * 0x100000000 + src[29] as u64 * 0x10000000000 + src[30] as u64 * 0x1000000000000 + src[31] as u64 * 0x100000000000000,
            system_offset: src[32] as u64 + src[33] as u64 * 0x100 + src[34] as u64 * 0x10000 + src[35] as u64 * 0x1000000 + src[36] as u64 * 0x100000000 + src[37] as u64 * 0x10000000000 + src[38] as u64 * 0x1000000000000 + src[39] as u64 * 0x100000000000000,
            system_delay: src[40] as u32 + src[41] as u32 * 0x100 + src[42] as u32 * 0x10000 + src[43] as u32 * 0x1000000,
            system_difference: TimeDifference::from_bits(src[44] as u64 + src[45] as u64 * 0x100 + src[46] as u64 * 0x10000 + src[47] as u64 * 0x1000000),
            reserved0: src[48] as u32 + src[49] as u32 * 0x100 + src[50] as u32 * 0x10000 + src[51] as u32 * 0x1000000,
            reserved1: src[52] as u32 + src[53] as u32 * 0x100 + src[54] as u32 * 0x10000 + src[55] as u32 * 0x1000000,
            reserved2: src[56] as u32 + src[57] as u32 * 0x100 + src[58] as u32 * 0x10000 + src[59] as u32 * 0x1000000,
        }
    }
}

impl PduData for DistributedClock {
    const ID: TypeId = TypeId::CUSTOM;
    type Packed = [u8; 60];

    open spec fn pack_defined(len: nat, bitoffset: u8, bitsize: usize, bitordering: Endianness) -> bool {
        true
    }

    open spec fn spec_pack_slice(
        &self,
        data: Seq<u8>,
        bitoffset: u8,
        bitsize: usize,
        bitordering: Endianness,
    ) -> PackingResult<Seq<u8>> {
        if bitoffset != 0 {
            Err(PackingError::BadAlignment(bitoffset as usize, "Offset not null"))
        } else if bitsize > data.len() {
            Err(PackingError::BadSize(bitsize, "Size too big for the slice"))
        } else {
            self.spec_pack(data)
        }
    }

    open spec fn unpack_defined(len: nat, bitoffset: u8, bitsize: usize, bitordering: Endianness) -> bool {
        true
    }

    open spec fn spec_unpack_slice(
        src: Seq<u8>,
        bitoffset: u8,
        bitsize: usize,
        bitordering: Endianness,
    ) -> PackingResult<Self> {
        if bitoffset != 0 {
            Err(PackingError::BadAlignment(bitoffset as usize, "Offset not null"))
        } else if bitsize > src.len() {
            Err(PackingError::BadSize(bitsize, "Size too big for the slice"))
        } else {
            Self::spec_unpack(src)
        }
    }

    open spec fn pack_whole_defined(len: nat) -> bool {
        true
    }

    open spec fn spec_pack(&self, data: Seq<u8>) -> PackingResult<Seq<u8>> {
        if data.len() < 60 {
            Err(PackingError::BadSize(data.len() as usize, "not enough bytes for struct"))
        } else {
            Ok(self.bytes() + data.subrange(60, data.len() as int))
        }
    }

    open spec fn unpack_whole_defined(len: nat) -> bool {
        true
    }

    open spec fn spec_unpack(src: Seq<u8>) -> PackingResult<Self> {
        if src.len() < 60 {
            Err(PackingError::BadSize(src.len() as usize, "not enough bytes for struct"))
        } else {
            Ok(Self::from_bytes(src))
        }
    }

    fn pack(&self, data: &mut [u8]) -> (r: PackingResult<()>) {
        if data.len() < 60 {
            return Err(PackingError::BadSize(data.len(), "not enough bytes for struct"));
        }
        let bytes = self.to_vec();
        let ghost d0 = data@;
        let mut i: usize = 0;
        while i < 60
            invariant
                i <= 60,
                60 <= d0.len(),
                bytes@ == self.bytes(),
                bytes@.len() == 60,
                data@.len() == d0.len(),
                forall|j: int| 0 <= j < d0.len() ==> #[trigger] data@[j] == if j < i {
                    bytes@[j]
                } else {
                    d0[j]
                },
            decreases 60 - i,
        {
            data[i] = bytes[i];
            i = i + 1;
        }
        proof {
            assert(data@ =~= self.bytes() + d0.subrange(60, d0.len() as int));
        }
        Ok(())
    }

    fn unpack(src: &[u8]) -> (r: PackingResult<Self>) {
        if src.len() < 60 {
            return Err(PackingError::BadSize(src.len(), "not enough bytes for struct"));
        }
        Ok(Self::from_slice(src))
    }

    fn pack_slice(
        &self,
        data: &mut [u8],
        bitoffset: u8,
        bitsize: usize,
        bitordering: Endianness,
    ) -> (r: PackingResult<()>) {
        if bitoffset != 0 {
            return Err(PackingError::BadAlignment(bitoffset as usize, "Offset not null"));
        }
        if bitsize > data.len() {
            return Err(PackingError::BadSize(bitsize, "Size too big for the slice"));
        }
        self.pack(data)
    }

    fn unpack_slice(src: &[u8], bitoffset: u8, bitsize: usize, bitordering: Endianness) -> (r: PackingResult<Self>) {
        if bitoffset != 0 {
            return Err(PackingError::BadAlignment(bitoffset as usize, "Offset not null"));
        }
        if bitsize > src.len() {
            return Err(PackingError::BadSize(bitsize, "Size too big for the slice"));
        }
        Self::unpack(src)
    }
}
/// field of the register: register of the station address, aka the fixed slave address (ETG.1000.4 table 32)
pub fn address_fixed() -> (r: Field<u16>)
    ensures
        r.offset == 0x0010,
        r.len == <u16 as PduData>::Packed::spec_len(),
        r.endian == Endianness::Little,
{
    Field::simple(0x0010)
}

/// field of the register: slave address alias (ETG.1000.4 table 32)
pub fn address_alias() -> (r: Field<u16>)
    ensures
        r.offset == 0x0012,
        r.len == <u16 as PduData>::Packed::spec_len(),
        r.endian == Endianness::Little,
{
    Field::simple(0x0012)
}

/// field of the register: information about the slave controller
pub fn dl_information() -> (r: Field<DLInformation>)
    ensures
        r.offset == 0x0000,
        r.len == <DLInformation as PduData>::Packed::spec_len(),
        r.endian == Endianness::Little,
{
    Field::simple(0x0000)
}

/// field of the register: data link control
pub fn dl_control() -> (r: Field<DLControl>)
    ensures
        r.offset == 0x0100,
        r.len == <DLControl as PduData>::Packed::spec_len(),
        r.endian == Endianness::Little,
{
    Field::simple(0x0100)
}

/// field of the register: data link status
pub fn dl_status() -> (r: Field<DLStatus>)
    ensures
        r.offset == 0x0110,
        r.len == <DLStatus as PduData>::Packed::spec_len(),
        r.endian == Endianness::Little,
{
    Field::simple(0x0110)
}

/// field of the register: DLS user register R1
pub fn dls_user_r1() -> (r: Field<u8>)
    ensures
        r.offset == 0x0120,
        r.len == <u8 as PduData>::Packed::spec_len(),
        r.endian == Endianness::Little,
{
    Field::simple(0x0120)
}

/// field of the register: DLS user register R2
pub fn dls_user_r2() -> (r: Field<u8>)
    ensures
        r.offset == 0x0121,
        r.len == <u8 as PduData>::Packed::spec_len(),
        r.endian == Endianness::Little,
{
    Field::simple(0x0121)
}

/// field of the register: DLS user register R3
pub fn dls_user_r3() -> (r: Field<u8>)
    ensures
        r.offset == 0x0130,
        r.len == <u8 as PduData>::Packed::spec_len(),
        r.endian == Endianness::Little,
{
    Field::simple(0x0130)
}

/// field of the register: DLS user register R4
pub fn dls_user_r4() -> (r: Field<u8>)
    ensures
        r.offset == 0x0131,
        r.len == <u8 as PduData>::Packed::spec_len(),
        r.endian == Endianness::Little,
{
    Field::simple(0x0131)
}

/// field of the register: DLS user register R5
pub fn dls_user_r5() -> (r: Field<u16>)
    ensures
        r.offset == 0x0132,
        r.len == <u16 as PduData>::Packed::spec_len(),
        r.endian == Endianness::Little,
{
    Field::simple(0x0132)
}

/// field of the register: DLS user register R6
pub fn dls_user_r6() -> (r: Field<u16>)
    ensures
        r.offset == 0x0134,
        r.len == <u16 as PduData>::Packed::spec_len(),
        r.endian == Endianness::Little,
{
    Field::simple(0x0134)
}

/// field of the register: DLS user register R7
pub fn dls_user_r7() -> (r: Field<u8>)
    ensures
        r.offset == 0x0140,
        r.len == <u8 as PduData>::Packed::spec_len(),
        r.endian == Endianness::Little,
{
    Field::simple(0x0140)
}

/// field of the register: DLS user register R8
pub fn dls_user_r8() -> (r: Field<u8>)
    ensures
        r.offset == 0x0150,
        r.len == <u8 as PduData>::Packed::spec_len(),
        r.endian == Endianness::Little,
{
    Field::simple(0x0150)
}

/// field of the register: DLS user events
pub fn dls_user_event() -> (r: Field<DLSUserEvents>)
    ensures
        r.offset == 0x0220,
        r.len == <DLSUserEvents as PduData>::Packed::spec_len(),
        r.endian == Endianness::Little,
{
    Field::simple(0x0220)
}

/// field of the register: mask of the DLS user events
pub fn dls_user_event_mask() -> (r: Field<DLSUserEvents>)
    ensures
        r.offset == 0x0202,
        r.len == <DLSUserEvents as PduData>::Packed::spec_len(),
        r.endian == Endianness::Little,
{
    Field::simple(0x0202)
}

/// field of the register: DLS user watchdog
pub fn dls_user_watchdog() -> (r: Field<u16>)
    ensures
        r.offset == 0x0410,
        r.len == <u16 as PduData>::Packed::spec_len(),
        r.endian == Endianness::Little,
{
    Field::simple(0x0410)
}

/// field of the register: external events, mapped to the IRQ of PDUs
pub fn external_event() -> (r: Field<ExternalEvent>)
    ensures
        r.offset == 0x0210,
        r.len == <ExternalEvent as PduData>::Packed::spec_len(),
        r.endian == Endianness::Little,
{
    Field::simple(0x0210)
}

/// field of the register: mask of the external events
pub fn external_event_mask() -> (r: Field<ExternalEvent>)
    ensures
        r.offset == 0x0200,
        r.len == <ExternalEvent as PduData>::Packed::spec_len(),
        r.endian == Endianness::Little,
{
    Field::simple(0x0200)
}

/// field of the register: error counters of the ports (ETG.1000.4 table 40)
pub fn ports_errors() -> (r: Field<PortsErrorCount>)
    ensures
        r.offset == 0x0300,
        r.len == 8,
        r.endian == Endianness::Little,
{
    Field::simple(0x0300)
}

/// field of the register: distributed clock (ETG.1000.4 table 60)
pub fn clock() -> (r: Field<DistributedClock>)
    ensures
        r.offset == 0x0900,
        r.len == 60,
        r.endian == Endianness::Little,
{
    Field::simple(0x0900)
}

/// field of the register: lost link counters
pub fn lost_link_count() -> (r: Field<LostLinkCount>)
    ensures
        r.offset == 0x0310,
        r.len == <LostLinkCount as PduData>::Packed::spec_len(),
        r.endian == Endianness::Little,
{
    Field::simple(0x0310)
}

/// field of the register: frame error counters
pub fn frame_error_count() -> (r: Field<FrameErrorCount>)
    ensures
        r.offset == 0x0308,
        r.len == <FrameErrorCount as PduData>::Packed::spec_len(),
        r.endian == Endianness::Little,
{
    Field::simple(0x0308)
}

/// field of the register: watchdog divider
pub fn watchdog_divider() -> (r: Field<u16>)
    ensures
        r.offset == 0x0400,
        r.len == <u16 as PduData>::Packed::spec_len(),
        r.endian == Endianness::Little,
{
    Field::simple(0x0400)
}

/// field of the register: watchdog counters
pub fn watchdog_counter() -> (r: Field<WatchdogCounter>)
    ensures
        r.offset == 0x0442,
        r.len == <WatchdogCounter as PduData>::Packed::spec_len(),
        r.endian == Endianness::Little,
{
    Field::simple(0x0442)
}

/// field of the register: sync manager watchdog (ETG.1000.6 table 45)
pub fn sync_manager_watchdog() -> (r: Field<u16>)
    ensures
        r.offset == 0x0420,
        r.len == <u16 as PduData>::Packed::spec_len(),
        r.endian == Endianness::Little,
{
    Field::simple(0x0420)
}

/// field of the register: sync manager watchdog status (ETG.1000.6 table 46)
pub fn sync_manager_watchdog_status() -> (r: Field<bool>)
    ensures
        r.offset == 0x0440,
        r.len == <bool as PduData>::Packed::spec_len(),
        r.endian == Endianness::Little,
{
    Field::simple(0x0440)
}

/// field of the register: access to the slave information interface
pub fn sii_access() -> (r: Field<SiiAccess>)
    ensures
        r.offset == 0x0500,
        r.len == <SiiAccess as PduData>::Packed::spec_len(),
        r.endian == Endianness::Little,
{
    Field::simple(0x0500)
}

/// field of the register: control of the read/write operations to the slave information interface
pub fn sii_control() -> (r: Field<SiiControl>)
    ensures
        r.offset == 0x0502,
        r.len == <SiiControl as PduData>::Packed::spec_len(),
        r.endian == Endianness::Little,
{
    Field::simple(0x0502)
}

/// field of the register: address in the slave information interface which is accessed by the next read or write operation
pub fn sii_address() -> (r: Field<u16>)
    ensures
        r.offset == 0x0504,
        r.len == <u16 as PduData>::Packed::spec_len(),
        r.endian == Endianness::Little,
{
    Field::simple(0x0504)
}

/// field of the register: latched receive time of the distributed clock on port 0
pub fn clock_latch() -> (r: Field<u32>)
    ensures
        r.offset == 0x0900,
        r.len == <u32 as PduData>::Packed::spec_len(),
        r.endian == Endianness::Little,
{
    Field::simple(0x0900)
}

/// field of the register: AL control register, requesting a state change (at DLS user R1)
pub fn al_control() -> (r: Field<AlControlRequest>)
    ensures
        r.offset == 0x0120,
        r.len == <AlControlRequest as PduData>::Packed::spec_len(),
        r.endian == Endianness::Little,
{
    Field::simple(0x0120)
}

/// field of the register: AL control response (at DLS user R3)
pub fn al_response() -> (r: Field<AlControlResponse>)
    ensures
        r.offset == 0x0130,
        r.len == <AlControlResponse as PduData>::Packed::spec_len(),
        r.endian == Endianness::Little,
{
    Field::simple(0x0130)
}

/// field of the register: AL error code, an [AlError] code (at DLS user R6)
pub fn al_error() -> (r: Field<u16>)
    ensures
        r.offset == 0x0134,
        r.len == <u16 as PduData>::Packed::spec_len(),
        r.endian == Endianness::Little,
{
    Field::simple(0x0134)
}

/// field of the register: AL status, the current state of communication (at DLS user R3)
pub fn al_status() -> (r: Field<AlStatus>)
    ensures
        r.offset == 0x0130,
        r.len == <AlStatus as PduData>::Packed::spec_len(),
        r.endian == Endianness::Little,
{
    Field::simple(0x0130)
}

/// field of the register: AL PDI control (at DLS user R7)
pub fn al_pdi() -> (r: Field<AlPdiControlType>)
    ensures
        r.offset == 0x0140,
        r.len == <AlPdiControlType as PduData>::Packed::spec_len(),
        r.endian == Endianness::Little,
{
    Field::simple(0x0140)
}

/// field of the register: AL sync configuration (at DLS user R8)
pub fn al_sync_config() -> (r: Field<AlSyncConfig>)
    ensures
        r.offset == 0x0150,
        r.len == <AlSyncConfig as PduData>::Packed::spec_len(),
        r.endian == Endianness::Little,
{
    Field::simple(0x0150)
}

/// DLS user register R9 (7 bits after the R1-R3 copy flag)
pub fn dls_user_r9() -> (r: BitField<u8>)
    ensures
        r.offset == 0x0141 * 8 + 1,
        r.len == 7,
        r.endian == Endianness::Little,
{
    BitField::new(0x0141 * 8 + 1, 7)
}

/// DLS user flag copying R1 into R3
pub fn dls_user_copy_r1_r3() -> (r: BitField<bool>)
    ensures
        r.offset == 0x0141 * 8,
        r.len == 1,
        r.endian == Endianness::Little,
{
    BitField::new(0x0141 * 8, 1)
}

/// FMMU (Fieldbus Memory Management Unit) is controling the mapping (copy) for a slave's physical memory from/to logical memory
pub fn fmmu() -> (r: FMMU)
    ensures
        r.address == 0x0600,
        r.num == 16,
{
    FMMU { address: 0x0600, num: 16 }
}

/// the sync manager channels of a slave
pub fn sync_manager_interface() -> (r: SyncManager)
    ensures
        r.address == 0x0800,
        r.num == 16,
{
    SyncManager { address: 0x0800, num: 16 }
}

/// this is not a PduData but a struct transporting the address and number of FMMU registers
/// ETG.1000.4 table 57
#[derive(Copy, Clone, Debug, PartialEq, Eq, Structural)]
pub struct FMMU {
    /// address of the first entry
    pub address: u16,
    /// number of entries
    pub num: u8,
}

impl FMMU {
    /// return an entry of the FMMU
    pub fn entry(&self, index: u8) -> (r: Field<FmmuEntry>)
        requires
            index < self.num,
            self.address + index * 0x10 <= u16::MAX,
        ensures
            r.offset == self.address + index * 0x10,
            r.len == 16,
            r.endian == Endianness::Little,
    {
        Field::simple((self.address + index as u16 * 0x10) as usize)
    }
}

/// size of a sync manager channel register
pub const SYNC_MANAGER_CHANNEL_SIZE: u16 = 8;

/// this is not a PduData but a convenience struct transporting the addresses of a sync manager
/// ETG.1000.4 table 59
#[derive(Copy, Clone, Debug, PartialEq, Eq, Structural)]
pub struct SyncManager {
    /// start address of the sync manager (address of the first channel)
    pub address: u16,
    /// number of channels
    pub num: u8,
}

impl SyncManager {
    /// return one channel of the sync manager
    pub fn channel(&self, index: u8) -> (r: Field<SyncManagerChannel>)
        requires
            index < self.num,
            self.address + index * SYNC_MANAGER_CHANNEL_SIZE <= u16::MAX,
        ensures
            r.offset == self.address + index * SYNC_MANAGER_CHANNEL_SIZE,
            r.len == 8,
            r.endian == Endianness::Little,
    {
        Field::simple((self.address + index as u16 * SYNC_MANAGER_CHANNEL_SIZE) as usize)
    }

    /// return the sync manager channel reserved for mailbox in
    pub fn mailbox_write(&self) -> (r: Field<SyncManagerChannel>)
        requires
            0 < self.num,
        ensures
            r.offset == self.address,
            r.len == 8,
            r.endian == Endianness::Little,
    {
        self.channel(0)
    }

    /// return the sync manager channel reserved for mailbox out
    pub fn mailbox_read(&self) -> (r: Field<SyncManagerChannel>)
        requires
            1 < self.num,
            self.address + SYNC_MANAGER_CHANNEL_SIZE <= u16::MAX,
        ensures
            r.offset == self.address + SYNC_MANAGER_CHANNEL_SIZE,
            r.len == 8,
            r.endian == Endianness::Little,
    {
        self.channel(1)
    }

    /// return one of the sync manager channels reserved for mapping
    pub fn mappable(&self, index: u8) -> (r: Field<SyncManagerChannel>)
        requires
            2 + index < self.num,
            self.address + (2 + index) * SYNC_MANAGER_CHANNEL_SIZE <= u16::MAX,
        ensures
            r.offset == self.address + (2 + index) * SYNC_MANAGER_CHANNEL_SIZE,
            r.len == 8,
            r.endian == Endianness::Little,
    {
        self.channel(2 + index)
    }
}

} // verus!
