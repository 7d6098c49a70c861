/*!
    state of the distributed clock synchronization of a group of slaves.

    Master normally has two different synchronization modes
    - Cyclic mode
    - DC Mode
    In Cyclic mode the master send the process data frame cyclically. The process data frame may be sent with different cycle times.

    [SyncClock] holds the registered slaves, their synchronization configuration and the state of the synchronization; the exchanges with the slaves are made by its user.
*/
use vstd::prelude::*;
use crate::error::EthercatError;
use crate::registers::{TimeDifference, DistributedClock, AlState};
use crate::sdo::{SyncMode, SyncModes, SyncCycleControl, sync_mode_code};
use crate::clock::{linked, port_linked};

verus! {

/// Default frame count used to set static drift synchronization
pub const STATIC_FRAME_COUNT: usize = 15000;
/// Default time (in µs) used to trigger system time synchronization
pub const CONTINOUS_TIMELAPS: u64 = 2000000;
/// default period (ns) of the synchronization control: 1 ms
pub const DEFAULT_SYNC_PERIOD: u64 = 1000000;

/// Enumerator to define and implement all synchronization type suppported by the etherCAT protocol
/// ETG1020 table 66
#[derive(Copy, Clone, Debug, PartialEq, Eq, Structural)]
pub enum SlaveSyncType {
    /// Not synchronized
    Free,
    /// Synchronize to SM2 event channel
    Sm2,
    /// Synchronize to SM3 event channel
    Sm3,
    /// SM2, Shift Input Latch
    Sm2Shif,
    /// SM3, Shift Input Latch
    Sm3Shift,
    /// DC
    DcSync0,
    /// DC, Shift of Outputs Valid with shift
    DcSyncShift,
    /// DC, Shift Outputs Valid and Input Latch with SYNC 1
    DcSyncShiftSync1,
    /// DC, Shift of Input Latch with SYNC1
    DcSync1,
    /// Subordinated Application Controller Cycles - DC, Shift Outputs Valid / Input Latch
    Subordinate,
}

/// rank of a synchronization type in the order of declaration, by which they compare
pub open spec fn sync_rank(m: SlaveSyncType) -> nat {
    match m {
        SlaveSyncType::Free => 0,
        SlaveSyncType::Sm2 => 1,
        SlaveSyncType::Sm3 => 2,
        SlaveSyncType::Sm2Shif => 3,
        SlaveSyncType::Sm3Shift => 4,
        SlaveSyncType::DcSync0 => 5,
        SlaveSyncType::DcSyncShift => 6,
        SlaveSyncType::DcSyncShiftSync1 => 7,
        SlaveSyncType::DcSync1 => 8,
        SlaveSyncType::Subordinate => 9,
    }
}

/// values of the subitem 1 of the SDOs 0x1C32 and 0x1C33 selecting a synchronization type
pub open spec fn sync_bytes(m: SlaveSyncType) -> Seq<u8> {
    match m {
        SlaveSyncType::Free => seq![0x00u8, 0x00u8],
        SlaveSyncType::Sm2 => seq![0x01u8, 0x22u8],
        SlaveSyncType::Sm3 => seq![0x00u8, 0x01u8],
        SlaveSyncType::Sm2Shif => seq![0x01u8, 0x22u8],
        SlaveSyncType::Sm3Shift => seq![0x00u8, 0x01u8],
        SlaveSyncType::DcSync0 => seq![0x02u8, 0x02u8],
        SlaveSyncType::DcSyncShift => seq![0x02u8, 0x03u8],
        SlaveSyncType::DcSync1 => seq![0x03u8, 0x03u8],
        SlaveSyncType::DcSyncShiftSync1 => seq![0x03u8, 0x02u8],
        SlaveSyncType::Subordinate => seq![0x03u8, 0x02u8],
    }
}

impl SlaveSyncType {
    /// Return the 0x1C32 and 0x1C33 value for the synchronisation mode provide in parameter <br>
    /// If index is not used, value is set to 0 by default <br>
    /// Return array with [0x1C32 SI 01; 0x1C33 SI 01]
    pub fn get_byte(m: SlaveSyncType) -> (r: [u8; 2])
        ensures
            r@ == sync_bytes(m),
    {
        let r: [u8; 2] = match m {
            SlaveSyncType::Free => [0x00u8, 0x00u8],
            SlaveSyncType::Sm2 => [0x01u8, 0x22u8],
            SlaveSyncType::Sm3 => [0x00u8, 0x01u8],
            SlaveSyncType::Sm2Shif => [0x01u8, 0x22u8],
            SlaveSyncType::Sm3Shift => [0x00u8, 0x01u8],
            SlaveSyncType::DcSync0 => [0x02u8, 0x02u8],
            SlaveSyncType::DcSyncShift => [0x02u8, 0x03u8],
            SlaveSyncType::DcSync1 => [0x03u8, 0x03u8],
            SlaveSyncType::DcSyncShiftSync1 => [0x03u8, 0x02u8],
            SlaveSyncType::Subordinate => [0x03u8, 0x02u8],
        };
        assert(r@ =~= sync_bytes(m));
        r
    }

    /// whether this synchronization type is driven by the distributed clock
    pub fn is_dc(&self) -> (r: bool)
        ensures
            r == (sync_rank(*self) >= sync_rank(SlaveSyncType::DcSync0)),
    {
        match self {
            SlaveSyncType::Free | SlaveSyncType::Sm2 | SlaveSyncType::Sm3 | SlaveSyncType::Sm2Shif | SlaveSyncType::Sm3Shift => false,
            _ => true,
        }
    }
}

impl Default for SlaveSyncType {
    fn default() -> (r: Self)
        ensures
            r == SlaveSyncType::Free,
    {
        SlaveSyncType::Free
    }
}

/// state of a [SyncClock]
#[derive(Copy, Clone, Debug, PartialEq, Eq, Structural)]
pub enum ClockStatus {
    /// slaves can be registered, the clock is not initialized
    Registering,
    /// delays and offsets are computed, the synchronization is not running
    Initialized,
    /// the synchronization is running
    Active,
}

impl Default for ClockStatus {
    fn default() -> (r: Self)
        ensures
            r == ClockStatus::Registering,
    {
        ClockStatus::Registering
    }
}

/// Helper to configurate to configurate **basic** DC synchronisation <br>
/// To use more **advanced** clock use SDO with 1xC32 index on SM2 channel and 1xC33 index on SM3 channel
#[derive(Copy, Clone, Debug, PartialEq, Eq, Structural)]
pub struct SlaveClockConfigHelper {
    /// The interrupt generation will start when the lower 32bits of the system time will reach this value (ns)
    pub cyclic_start_time: Option<u32>,
    /// Sync 0 cyclic time (ns) - if *Option::None*, disable Sync0 pulse generation
    pub sync_0_time: Option<u32>,
    /// Sync 1 cyclic time (ns) - if *Option::None*, disable Sync1 pulse generation
    pub sync_1_time: Option<u32>,
    /// Pulse debug time option - Taken from SII (Slave Information Interface) - Multiple of **10ns**
    pub pulse: Option<u16>,
}

impl SlaveClockConfigHelper {
    /// a configuration from its parts
    pub fn new(cyclic_op_time: Option<u32>, sync_0_time: Option<u32>, sync_1_time: Option<u32>, pulse: Option<u16>) -> (r: Self)
        ensures
            r == (SlaveClockConfigHelper { cyclic_start_time: cyclic_op_time, sync_0_time, sync_1_time, pulse }),
    {
        Self { cyclic_start_time: cyclic_op_time, sync_0_time, sync_1_time, pulse }
    }

    /// Default implementation: sync_0_time = 2000000ns, sync_1_time = none, no pulse
    pub fn default() -> (r: Self)
        ensures
            r == (SlaveClockConfigHelper { cyclic_start_time: None, sync_0_time: Some(2000000), sync_1_time: None, pulse: None }),
    {
        Self { sync_0_time: Some(2000000), sync_1_time: None, cyclic_start_time: None, pulse: None }
    }
}

/// isochronous (sync unit) configuration of one slave
#[derive(Copy, Clone, Debug, PartialEq, Eq, Structural)]
pub struct Isochronous {
    /// generation of the SYNC0 signal
    pub generate_sync0: bool,
    /// generation of the SYNC1 signal
    pub generate_sync1: bool,
    /// cyclic operation of the sync unit
    pub enable_cyclic: bool,
    /// interrupt on SYNC0
    pub interrupt0: bool,
    /// interrupt on SYNC1
    pub interrupt1: bool,
    /// cycle time of SYNC0 (ns)
    pub sync_0_cycle_time: u32,
    /// cycle time of SYNC1 (ns)
    pub sync_1_cycle_time: u32,
    /// length of the sync pulse (multiple of 10ns)
    pub sync_pulse: u16,
}

/// the isochronous configuration of a slave not yet configured
pub open spec fn isochronous_idle() -> Isochronous {
    Isochronous {
        generate_sync0: false,
        generate_sync1: false,
        enable_cyclic: false,
        interrupt0: false,
        interrupt1: false,
        sync_0_cycle_time: 0,
        sync_1_cycle_time: 0,
        sync_pulse: 0,
    }
}

/// a slave registered in a [SyncClock]
#[derive(Copy, Clone, Debug)]
pub struct SlaveInfo {
    /// index of the slave in the ethercat loop
    pub index: u16,
    /// whether the slave clock uses the whole range
    pub clock_range: bool,
    /// whether the slave clock was last seen diverging
    pub is_desync: bool,
    /// parameters 1 to 3 of the slave's clock control loop
    pub control_loop_params: [u16; 3],
    /// local times latched at the reception of a frame on each port
    pub received_time: [u32; 4],
    /// transmission delay from the reference slave
    pub system_delay: u32,
    /// system time latched at the processing unit at the reception of a frame
    pub system_time: u64,
    /// local time latched at the processing unit at the reception of a frame
    pub local_time: u64,
    /// offset between the local time and the system time
    pub system_offset: u64,
    /// sync unit configuration
    pub isochronous: Isochronous,
    /// synchronization type
    pub clock_type: SlaveSyncType,
}

/// a slave just registered
pub open spec fn slave_info_new(index: u16) -> SlaveInfo {
    SlaveInfo {
        index,
        clock_range: true,
        is_desync: false,
        control_loop_params: [0u16, 0u16, 0u16],
        received_time: [0u32, 0u32, 0u32, 0u32],
        system_delay: 0,
        system_time: 0,
        local_time: 0,
        system_offset: 0,
        isochronous: isochronous_idle(),
        clock_type: SlaveSyncType::Free,
    }
}

/// the synchronization type a configuration gives
pub open spec fn configured_type(config: SlaveClockConfigHelper) -> SlaveSyncType {
    if config.sync_1_time is Some {
        SlaveSyncType::DcSync1
    } else if config.sync_0_time is Some {
        SlaveSyncType::DcSync0
    } else {
        SlaveSyncType::Free
    }
}

/// a slave after the given configuration is applied to it
pub open spec fn configured(slave: SlaveInfo, config: SlaveClockConfigHelper) -> SlaveInfo {
    let iso = slave.isochronous;
    SlaveInfo {
        isochronous: Isochronous {
            generate_sync0: iso.generate_sync0 || config.sync_0_time is Some,
            interrupt0: iso.interrupt0 || config.sync_0_time is Some,
            sync_0_cycle_time: match config.sync_0_time { Some(t) => t, None => iso.sync_0_cycle_time },
            generate_sync1: iso.generate_sync1 || config.sync_1_time is Some,
            interrupt1: iso.interrupt1 || config.sync_1_time is Some,
            sync_1_cycle_time: match config.sync_1_time { Some(t) => t, None => iso.sync_1_cycle_time },
            enable_cyclic: sync_rank(configured_type(config)) >= sync_rank(SlaveSyncType::DcSync0),
            sync_pulse: match config.pulse { Some(p) => p, None => 0 },
        },
        clock_type: configured_type(config),
        ..slave
    }
}

fn configure(slave: SlaveInfo, config: SlaveClockConfigHelper) -> (r: SlaveInfo)
    ensures
        r == configured(slave, config),
{
    let mut slv = slave;
    slv.clock_type = SlaveSyncType::Free;
    if let Some(t) = config.sync_0_time {
        slv.isochronous.generate_sync0 = true;
        slv.isochronous.interrupt0 = true;
        slv.isochronous.sync_0_cycle_time = t;
        slv.clock_type = SlaveSyncType::DcSync0;
    }
    if let Some(t) = config.sync_1_time {
        slv.isochronous.generate_sync1 = true;
        slv.isochronous.interrupt1 = true;
        slv.isochronous.sync_1_cycle_time = t;
        slv.clock_type = SlaveSyncType::DcSync1;
    }
    slv.isochronous.enable_cyclic = slv.clock_type.is_dc();
    slv.isochronous.sync_pulse = match config.pulse {
        Some(p) => p,
        None => 0,
    };
    slv
}

/// a slave whose clock registers and sync unit configuration are back to their reset values
pub open spec fn clock_cleared(slave: SlaveInfo) -> SlaveInfo {
    SlaveInfo {
        control_loop_params: [0u16, 0u16, 0u16],
        received_time: [0u32, 0u32, 0u32, 0u32],
        system_delay: 0,
        system_time: 0,
        local_time: 0,
        system_offset: 0,
        isochronous: isochronous_idle(),
        ..slave
    }
}

/// position of the first slave from position `k` on that is not before the reference in the loop, if any
fn first_visible(slaves: &Vec<SlaveInfo>, k: usize, reference: u16) -> (r: Option<usize>)
    requires
        k <= slaves@.len(),
    ensures
        match first_visible_from(slaves@, k as int, reference) {
            Some(j) => r == Some(j as usize) && k <= j < slaves@.len(),
            None => r is None,
        },
{
    let mut j: usize = k;
    while j < slaves.len()
        invariant
            k <= j <= slaves@.len(),
            first_visible_from(slaves@, k as int, reference) == first_visible_from(slaves@, j as int, reference),
        decreases slaves@.len() - j,
    {
        if slaves[j].index >= reference {
            return Some(j);
        }
        j = j + 1;
    }
    None
}

/// the times latched by a slave and the next one in the loop give a delay without underflow
fn pair_computable(s: SlaveInfo, p: SlaveInfo) -> (r: bool)
    ensures
        r == pair_defined(s, p),
{
    let (s0, s1) = (s.received_time[0], s.received_time[1]);
    let (p1, p2, p3) = (p.received_time[1], p.received_time[2], p.received_time[3]);
    if s1 == 0 {
        true
    } else if s0 > s1 {
        false
    } else if p3 != 0 {
        p2 <= p3 && p1 <= p2 && (p3 - p2) as u64 + (p2 - p1) as u64 <= (s1 - s0) as u64
    } else if p2 != 0 {
        p1 <= p2 && p2 - p1 <= s1 - s0
    } else {
        true
    }
}

/// the delays of consecutive slaves from the reference on can be computed
pub fn delays_computable(slaves: &Vec<SlaveInfo>, reference: u16) -> (r: bool)
    ensures
        r == delays_defined(slaves@, reference),
{
    let mut i: usize = 0;
    while i < slaves.len()
        invariant
            i <= slaves@.len(),
            forall|k: int| #![trigger slaves@[k]] 0 <= k < i && slaves@[k].index >= reference ==>
                match first_visible_from(slaves@, k + 1, reference) {
                    Some(j) => pair_defined(slaves@[k], slaves@[j]),
                    None => true,
                },
        decreases slaves@.len() - i,
    {
        if slaves[i].index >= reference {
            match first_visible(slaves, i + 1, reference) {
                Some(j) => {
                    if !pair_computable(slaves[i], slaves[j]) {
                        assert(!delays_defined(slaves@, reference)) by {
                            let _ = slaves@[i as int];
                        }
                        return false;
                    }
                },
                None => {},
            }
        }
        i = i + 1;
    }
    true
}

/// a slave about to be measured: its clock reset (unless slaves are still being registered) and its clock
/// control loop set for measuring
pub open spec fn prepared(slave: SlaveInfo, status: ClockStatus) -> SlaveInfo {
    let c = if status == ClockStatus::Registering { slave } else { clock_cleared(slave) };
    SlaveInfo { control_loop_params: [LOOP_PARAMETER_0, c.control_loop_params[1], LOOP_PARAMETER_2_MEASURE], ..c }
}

/// a slave once its clock registers were sampled, and, when its DL status was read, its unlinked ports cleared
pub open spec fn measured_slave(slave: SlaveInfo, samples: Seq<DistributedClock>, links: Option<u8>) -> SlaveInfo {
    let s = sampled(slave, samples);
    match links {
        Some(l) => SlaveInfo {
            received_time: [
                s.received_time[0],
                cleared_time(s.received_time, l, 1),
                cleared_time(s.received_time, l, 2),
                cleared_time(s.received_time, l, 3),
            ],
            ..s
        },
        None => s,
    }
}

/// the slaves of a clock in state `status` once prepared and measured
pub open spec fn measured(
    slaves: Seq<SlaveInfo>,
    status: ClockStatus,
    samples: Seq<Vec<DistributedClock>>,
    links: Seq<Option<u8>>,
) -> Seq<SlaveInfo> {
    Seq::new(slaves.len(), |i: int| measured_slave(prepared(slaves[i], status), samples[i]@, links[i]))
}

/// the slave at position `i` of the measured slaves `m` once the clock is initialized with the reference at
/// position `l` and of loop index `reference`: its delay, its offset if it is synchronized on the distributed clock,
/// and its clock control loop set for synchronizing
pub open spec fn initialized_slave(m: Seq<SlaveInfo>, i: int, l: int, reference: u16) -> SlaveInfo {
    let d = SlaveInfo { system_delay: reference_delay(m, i, reference, l), ..m[i] };
    let o = if sync_rank(d.clock_type) >= sync_rank(SlaveSyncType::DcSync0) {
        SlaveInfo { system_offset: ((m[i].local_time as u32) as int - (m[l].local_time as u32) as int) as u64, ..d }
    } else {
        d
    };
    SlaveInfo { control_loop_params: [LOOP_PARAMETER_0, o.control_loop_params[1], LOOP_PARAMETER_2_SYNC], ..o }
}

/// the initialization with the reference of loop index `index` reaches the measurements
pub open spec fn init_measures(slaves: Seq<SlaveInfo>, status: ClockStatus, index: u16, answered: u16) -> bool {
    index as nat <= slaves.len() && status != ClockStatus::Active && last_index_of(slaves, index) is Some && answered != 0
}

/// applying the same configuration twice is applying it once
proof fn lemma_configured_twice(slave: SlaveInfo, config: SlaveClockConfigHelper)
    ensures
        configured(configured(slave, config), config) == configured(slave, config),
{
}

/// the slaves of `slaves` followed by the slaves of loop indices `indices`, just registered
pub open spec fn with_registered(slaves: Seq<SlaveInfo>, indices: Seq<u16>) -> Seq<SlaveInfo> {
    slaves + indices.map_values(|index: u16| slave_info_new(index))
}

/// the slaves, those whose loop index is listed in `indices` configured with `config`
pub open spec fn configured_listed(slaves: Seq<SlaveInfo>, indices: Seq<u16>, config: SlaveClockConfigHelper) -> Seq<SlaveInfo> {
    slaves.map_values(|slave: SlaveInfo| if indices.contains(slave.index) { configured(slave, config) } else { slave })
}

/// index of the last slave of the list with the given loop index, if any
pub open spec fn last_index_of(slaves: Seq<SlaveInfo>, index: u16) -> Option<int> {
    if exists|i: int| 0 <= i < slaves.len() && #[trigger] slaves[i].index == index {
        Some(choose|i: int| 0 <= i < slaves.len() && #[trigger] slaves[i].index == index
            && forall|j: int| i < j < slaves.len() ==> #[trigger] slaves[j].index != index)
    } else {
        None
    }
}

/// the first slave from position `k` on that is not before the reference slave in the loop
pub open spec fn first_visible_from(slaves: Seq<SlaveInfo>, k: int, reference: u16) -> Option<int>
    decreases slaves.len() - k,
{
    if k < 0 || k >= slaves.len() {
        None
    } else if slaves[k].index >= reference {
        Some(k)
    } else {
        first_visible_from(slaves, k + 1, reference)
    }
}

/// the delay between a slave and the next one in the loop, from the times latched on their ports, if they latched any
pub open spec fn pair_delay(s: SlaveInfo, p: SlaveInfo) -> Option<u32> {
    let (s0, s1) = (s.received_time@[0] as int, s.received_time@[1] as int);
    let (p1, p2, p3) = (p.received_time@[1] as int, p.received_time@[2] as int, p.received_time@[3] as int);
    if s1 == 0 {
        None
    } else if p3 != 0 {
        Some((((s1 - s0) - (p3 - p2) - (p2 - p1)) / 2) as u32)
    } else if p2 != 0 {
        Some((((s1 - s0) - (p2 - p1)) / 2) as u32)
    } else if p1 != 0 {
        Some(((s1 - s0) / 2) as u32)
    } else {
        None
    }
}

/// the times latched by a slave and the next one in the loop give a delay without underflow
pub open spec fn pair_defined(s: SlaveInfo, p: SlaveInfo) -> bool {
    let (s0, s1) = (s.received_time@[0] as int, s.received_time@[1] as int);
    let (p1, p2, p3) = (p.received_time@[1] as int, p.received_time@[2] as int, p.received_time@[3] as int);
    s1 != 0 ==> {
        &&& s0 <= s1
        &&& p3 != 0 ==> p2 <= p3 && p1 <= p2 && (p3 - p2) + (p2 - p1) <= s1 - s0
        &&& p3 == 0 && p2 != 0 ==> p1 <= p2 && p2 - p1 <= s1 - s0
    }
}

/// the delay of the slave at position `i` after its delay to the next slave in the loop is computed
pub open spec fn loop_delay(slaves: Seq<SlaveInfo>, i: int, reference: u16) -> u32 {
    if slaves[i].index < reference {
        slaves[i].system_delay
    } else {
        match first_visible_from(slaves, i + 1, reference) {
            Some(j) => match pair_delay(slaves[i], slaves[j]) {
                Some(d) => d,
                None => slaves[i].system_delay,
            },
            None => slaves[i].system_delay,
        }
    }
}

/// the delay of the slave at position `i` once delays are counted from the reference slave at position `l`
pub open spec fn reference_delay(slaves: Seq<SlaveInfo>, i: int, reference: u16, l: int) -> u32 {
    let d = loop_delay(slaves, l, reference);
    let base = if i == l { 0 } else { loop_delay(slaves, i, reference) };
    if slaves[i].index != reference && d > base {
        (d - base) as u32
    } else {
        base
    }
}

/// the delays of consecutive slaves from the reference on can be computed
pub open spec fn delays_defined(slaves: Seq<SlaveInfo>, reference: u16) -> bool {
    forall|i: int| #![trigger slaves[i]] 0 <= i < slaves.len() && slaves[i].index >= reference ==>
        match first_visible_from(slaves, i + 1, reference) {
            Some(j) => pair_defined(slaves[i], slaves[j]),
            None => true,
        }
}

proof fn lemma_first_visible_bounds(slaves: Seq<SlaveInfo>, k: int, reference: u16)
    ensures
        first_visible_from(slaves, k, reference) matches Some(j) ==> k <= j < slaves.len() && slaves[j].index >= reference,
    decreases slaves.len() - k,
{
    if 0 <= k < slaves.len() && slaves[k].index < reference {
        lemma_first_visible_bounds(slaves, k + 1, reference);
    }
}

/// two registered slaves are the same but for their control loop parameters
pub open spec fn same_but_parameters(a: SlaveInfo, b: SlaveInfo) -> bool {
    &&& a.index == b.index
    &&& a.clock_range == b.clock_range
    &&& a.is_desync == b.is_desync
    &&& a.received_time == b.received_time
    &&& a.system_delay == b.system_delay
    &&& a.system_time == b.system_time
    &&& a.local_time == b.local_time
    &&& a.system_offset == b.system_offset
    &&& a.isochronous == b.isochronous
    &&& a.clock_type == b.clock_type
}

/// the slaves in a list are registered in a distributed clock
pub struct SyncClock {
    /// Index of the reference slave in the "physical" loop
    pub ref_p_idx: u16,
    /// Index of the reference slave in the internal array
    pub ref_l_idx: Option<usize>,
    /// Time shift between master local time and reference local time (minus transmition delay)
    pub offset: u64,
    /// Delay transmision between master and reference
    pub delay: u32,
    /// Shift delay used to advance transmission frame and allow "input data" to be available at sm3 event
    pub shift: u32,
    /// whether the drift is corrected continuously (else statically)
    pub continuous: bool,
    /// registered slaves
    pub slaves: Vec<SlaveInfo>,
    /// DC control cycle time
    pub cycle_time: u64,
    /// Number of frame used to prevent static drift
    pub drift_frm_count: usize,
    /// Current status of the SyncClock structure
    pub status: ClockStatus,
    /// whether the master synchronizes on the distributed clock (else cyclic)
    pub dc: bool,
}

impl SyncClock {
    /// Initialize a new disribution clock
    pub fn new() -> (r: Self)
        ensures
            r.ref_p_idx == 0,
            r.ref_l_idx is None,
            r.offset == 0,
            r.delay == 0,
            r.shift == 0,
            r.continuous,
            r.slaves@.len() == 0,
            r.cycle_time == CONTINOUS_TIMELAPS,
            r.drift_frm_count == STATIC_FRAME_COUNT,
            r.status == ClockStatus::Registering,
            !r.dc,
    {
        SyncClock {
            ref_p_idx: 0,
            ref_l_idx: None,
            offset: 0,
            delay: 0,
            shift: 0,
            continuous: true,
            slaves: Vec::new(),
            cycle_time: CONTINOUS_TIMELAPS,
            drift_frm_count: STATIC_FRAME_COUNT,
            status: ClockStatus::Registering,
            dc: false,
        }
    }

    /// Configure the periode used when automatic resynchronisation is enable <br>
    /// - time Time in microseconds between each synchronisation control (0 for the default value)
    /// - drift: frames limits used to trigger a DC synchronization with drift and continueous clock (0 for the default value 15000)
    /// Send "Unauthorized command" error if DC is active.
    pub fn set_sync_loop_limits(&mut self, time: u64, drift: usize) -> (r: Result<(), EthercatError<&'static str>>)
        ensures
            old(self).status == ClockStatus::Active ==> r == Err::<(), EthercatError<&'static str>>(
                EthercatError::Protocol("DC: Command not authorized with the current instance state"))
                && final(self).cycle_time == old(self).cycle_time
                && final(self).drift_frm_count == old(self).drift_frm_count,
            old(self).status != ClockStatus::Active ==> r is Ok
                && final(self).cycle_time == (if time == 0 { DEFAULT_SYNC_PERIOD } else { time })
                && final(self).drift_frm_count == (if drift == 0 { STATIC_FRAME_COUNT } else { drift }),
            final(self).slaves@ == old(self).slaves@,
            final(self).status == old(self).status,
            final(self).ref_p_idx == old(self).ref_p_idx,
            final(self).ref_l_idx == old(self).ref_l_idx,
    {
        if self.status != ClockStatus::Active {
            self.cycle_time = if time == 0 { DEFAULT_SYNC_PERIOD } else { time };
            self.drift_frm_count = if drift == 0 { STATIC_FRAME_COUNT } else { drift };
            Ok(())
        } else {
            Err(EthercatError::Protocol("DC: Command not authorized with the current instance state"))
        }
    }

    /// Get control loop parameter for the slave of the given loop index used in the current distributed clock instance.
    pub fn get_loop_parameters(&self, slv_idx: u16) -> (r: Option<[u16; 3]>)
        ensures
            match last_index_of(self.slaves@, slv_idx) {
                Some(i) => r == Some(self.slaves@[i].control_loop_params),
                None => r is None,
            },
    {
        let mut res: Option<[u16; 3]> = None;
        let ghost mut found: int = -1;
        let mut i: usize = 0;
        while i < self.slaves.len()
            invariant
                i <= self.slaves@.len(),
                -1 <= found < i,
                found >= 0 ==> self.slaves@[found].index == slv_idx,
                forall|j: int| found < j < i ==> #[trigger] self.slaves@[j].index != slv_idx,
                found >= 0 ==> res == Some(self.slaves@[found].control_loop_params),
                found < 0 ==> res is None,
            decreases self.slaves@.len() - i,
        {
            if self.slaves[i].index == slv_idx {
                res = Some(self.slaves[i].control_loop_params);
                proof {
                    found = i as int;
                }
            }
            i = i + 1;
        }
        proof {
            if found >= 0 {
                let w = choose|k: int| 0 <= k < self.slaves@.len() && #[trigger] self.slaves@[k].index == slv_idx
                    && forall|j: int| k < j < self.slaves@.len() ==> #[trigger] self.slaves@[j].index != slv_idx;
                assert(self.slaves@[found].index == slv_idx);
                assert(w == found) by {
                    if w < found {
                        assert(self.slaves@[found].index != slv_idx);
                    }
                    if w > found {
                        assert(self.slaves@[w].index != slv_idx);
                    }
                }
            } else {
                assert(!exists|k: int| 0 <= k < self.slaves@.len() && #[trigger] self.slaves@[k].index == slv_idx);
            }
        }
        res
    }

    /// Get DC instance status
    pub fn get_status(&self) -> (r: ClockStatus)
        ensures
            r == self.status,
    {
        self.status
    }

    /// Configure DC for the slaves of the given loop index
    pub fn set_dc_slave_config(&mut self, slave: u16, config: SlaveClockConfigHelper)
        ensures
            final(self).slaves@.len() == old(self).slaves@.len(),
            forall|i: int| 0 <= i < old(self).slaves@.len() ==> #[trigger] final(self).slaves@[i] == if old(self).slaves@[i].index == slave {
                configured(old(self).slaves@[i], config)
            } else {
                old(self).slaves@[i]
            },
            final(self).status == old(self).status,
            final(self).ref_p_idx == old(self).ref_p_idx,
            final(self).ref_l_idx == old(self).ref_l_idx,
    {
        let ghost s0 = self.slaves@;
        let mut i: usize = 0;
        while i < self.slaves.len()
            invariant
                i <= self.slaves@.len(),
                self.slaves@.len() == s0.len(),
                self.status == old(self).status,
                self.ref_p_idx == old(self).ref_p_idx,
                self.ref_l_idx == old(self).ref_l_idx,
                s0 == old(self).slaves@,
                forall|j: int| 0 <= j < s0.len() ==> #[trigger] self.slaves@[j] == if j < i && s0[j].index == slave {
                    configured(s0[j], config)
                } else {
                    s0[j]
                },
            decreases s0.len() - i,
        {
            if self.slaves[i].index == slave {
                let updated = configure(self.slaves[i], config);
                self.slaves.set(i, updated);
            }
            i = i + 1;
        }
    }

    /// Shift time used to synchronoize DC frame send for each slave. Time must be in ns.
    pub fn set_shift(&mut self, shift: u32)
        ensures
            final(self).shift == shift,
            final(self).slaves@ == old(self).slaves@,
            final(self).status == old(self).status,
    {
        self.shift = shift;
    }

    /// Register one slave to this synchronisation instance
    /// - idx: Index of the slave in the loop
    pub fn slave_register(&mut self, idx: u16) -> (r: Result<(), EthercatError<&'static str>>)
        ensures
            old(self).status != ClockStatus::Registering ==> r == Err::<(), EthercatError<&'static str>>(
                EthercatError::Slave("Cannot register slaves if clock is initialzed or running"))
                && final(self).slaves@ == old(self).slaves@,
            old(self).status == ClockStatus::Registering ==> r is Ok
                && final(self).slaves@ == old(self).slaves@.push(slave_info_new(idx)),
            final(self).status == old(self).status,
            final(self).ref_p_idx == old(self).ref_p_idx,
            final(self).ref_l_idx == old(self).ref_l_idx,
    {
        if self.status != ClockStatus::Registering {
            return Err(EthercatError::Slave("Cannot register slaves if clock is initialzed or running"));
        }
        let info = SlaveInfo {
            index: idx,
            clock_range: true,
            is_desync: false,
            control_loop_params: [0u16, 0u16, 0u16],
            received_time: [0u32, 0u32, 0u32, 0u32],
            system_delay: 0,
            system_time: 0,
            local_time: 0,
            system_offset: 0,
            isochronous: Isochronous {
                generate_sync0: false,
                generate_sync1: false,
                enable_cyclic: false,
                interrupt0: false,
                interrupt1: false,
                sync_0_cycle_time: 0,
                sync_1_cycle_time: 0,
                sync_pulse: 0,
            },
            clock_type: SlaveSyncType::Free,
        };
        self.slaves.push(info);
        Ok(())
    }

    /// Unregister the slave of the given loop index if it exists and it's not the reference slave
    /// This function can only be done in **init** and **register** clock status
    pub fn slave_unregister(&mut self, slave: u16)
        ensures
            (slave == old(self).ref_p_idx || old(self).status == ClockStatus::Active)
                ==> final(self).slaves@ == old(self).slaves@,
            !(slave == old(self).ref_p_idx || old(self).status == ClockStatus::Active) ==> match last_index_of(old(self).slaves@, slave) {
                Some(i) => final(self).slaves@ == old(self).slaves@.remove(i),
                None => final(self).slaves@ == old(self).slaves@,
            },
            final(self).status == old(self).status,
            final(self).ref_p_idx == old(self).ref_p_idx,
            final(self).ref_l_idx == old(self).ref_l_idx,
    {
        if slave == self.ref_p_idx || self.status == ClockStatus::Active {
            return;
        }
        let mut idx: Option<usize> = None;
        let mut i: usize = 0;
        while i < self.slaves.len()
            invariant
                i <= self.slaves@.len(),
                idx matches Some(k) ==> k < i && self.slaves@[k as int].index == slave
                    && forall|j: int| k < j < i ==> #[trigger] self.slaves@[j].index != slave,
                idx is None ==> forall|j: int| 0 <= j < i ==> #[trigger] self.slaves@[j].index != slave,
            decreases self.slaves@.len() - i,
        {
            if self.slaves[i].index == slave {
                idx = Some(i);
            }
            i = i + 1;
        }
        let ghost s0 = self.slaves@;
        proof {
            match idx {
                Some(k) => {
                    let w = choose|m: int| 0 <= m < s0.len() && #[trigger] s0[m].index == slave
                        && forall|j: int| m < j < s0.len() ==> #[trigger] s0[j].index != slave;
                    assert(s0[k as int].index == slave);
                    assert(w == k) by {
                        if w < k {
                            assert(s0[k as int].index != slave);
                        }
                        if w > k {
                            assert(s0[w].index != slave);
                        }
                    }
                },
                None => {
                    assert(!exists|m: int| 0 <= m < s0.len() && #[trigger] s0[m].index == slave);
                },
            }
        }
        if let Some(k) = idx {
            self.slaves.remove(k);
        }
    }

    /// Store the loop index of the reference slave, and find its index in the registered slaves (the last one with this index)
    pub fn search_vector_ref_index(&mut self, phys_index: u16)
        ensures
            final(self).ref_p_idx == phys_index,
            match last_index_of(old(self).slaves@, phys_index) {
                Some(i) => final(self).ref_l_idx == Some(i as usize) && 0 <= i < old(self).slaves@.len(),
                None => final(self).ref_l_idx is None,
            },
            final(self).slaves@ == old(self).slaves@,
            final(self).status == old(self).status,
    {
        self.ref_l_idx = None;
        self.ref_p_idx = phys_index;
        let mut lidx: usize = 0;
        while lidx < self.slaves.len()
            invariant
                lidx <= self.slaves@.len(),
                self.slaves@ == old(self).slaves@,
                self.ref_p_idx == phys_index,
                self.status == old(self).status,
                self.ref_l_idx matches Some(k) ==> k < lidx && self.slaves@[k as int].index == phys_index
                    && forall|j: int| k < j < lidx ==> #[trigger] self.slaves@[j].index != phys_index,
                self.ref_l_idx is None ==> forall|j: int| 0 <= j < lidx ==> #[trigger] self.slaves@[j].index != phys_index,
            decreases self.slaves@.len() - lidx,
        {
            if self.slaves[lidx].index == phys_index {
                self.ref_l_idx = Some(lidx);
            }
            lidx = lidx + 1;
        }
        proof {
            let s0 = self.slaves@;
            match self.ref_l_idx {
                Some(k) => {
                    let w = choose|m: int| 0 <= m < s0.len() && #[trigger] s0[m].index == phys_index
                        && forall|j: int| m < j < s0.len() ==> #[trigger] s0[j].index != phys_index;
                    assert(s0[k as int].index == phys_index);
                    assert(w == k) by {
                        if w < k {
                            assert(s0[k as int].index != phys_index);
                        }
                        if w > k {
                            assert(s0[w].index != phys_index);
                        }
                    }
                },
                None => {
                    assert(!exists|m: int| 0 <= m < s0.len() && #[trigger] s0[m].index == phys_index);
                },
            }
        }
    }

    /// checks that the clock can be initialized with the reference slave of the given loop index, and stores the reference
    pub fn init_reference(&mut self, index: u16) -> (r: Result<(), EthercatError<&'static str>>)
        ensures
            index as nat > old(self).slaves@.len() ==> r == Err::<(), EthercatError<&'static str>>(
                EthercatError::Slave("Reference doesn't register in this DC instance")),
            index as nat <= old(self).slaves@.len() && old(self).status == ClockStatus::Active ==> r == Err::<(), EthercatError<&'static str>>(
                EthercatError::Slave("Cannot initialize a clack that active")),
            index as nat <= old(self).slaves@.len() && old(self).status != ClockStatus::Active && last_index_of(old(self).slaves@, index) is None
                ==> r == Err::<(), EthercatError<&'static str>>(EthercatError::Slave("Reference doesn't register in this DC instance")),
            r is Ok ==> final(self).ref_p_idx == index && final(self).ref_l_idx == Some(last_index_of(old(self).slaves@, index)->0 as usize)
                && 0 <= last_index_of(old(self).slaves@, index)->0 < old(self).slaves@.len(),
            r is Ok <==> (index as nat <= old(self).slaves@.len() && old(self).status != ClockStatus::Active
                && last_index_of(old(self).slaves@, index) is Some),
            final(self).slaves@ == old(self).slaves@,
            final(self).status == old(self).status,
    {
        if index as usize > self.slaves.len() {
            return Err(EthercatError::Slave("Reference doesn't register in this DC instance"));
        }
        if self.status == ClockStatus::Active {
            return Err(EthercatError::Slave("Cannot initialize a clack that active"));
        }
        self.search_vector_ref_index(index);
        if self.ref_l_idx.is_none() {
            return Err(EthercatError::Slave("Reference doesn't register in this DC instance"));
        }
        Ok(())
    }

    /**
        compute for each slave from the reference on its transmission delay from the reference slave: the delay to the
        next slave in the loop is derived from the times latched on their ports, then counted from the reference's one
    */
    pub fn update_delay(&mut self) -> (r: Result<(), EthercatError<&'static str>>)
        requires
            old(self).ref_l_idx matches Some(l) && l < old(self).slaves@.len(),
            delays_defined(old(self).slaves@, old(self).ref_p_idx),
        ensures
            r is Ok,
            final(self).slaves@.len() == old(self).slaves@.len(),
            forall|i: int| 0 <= i < old(self).slaves@.len() ==> #[trigger] final(self).slaves@[i] == (SlaveInfo {
                system_delay: reference_delay(old(self).slaves@, i, old(self).ref_p_idx, old(self).ref_l_idx->0 as int),
                ..old(self).slaves@[i]
            }),
            final(self).offset == old(self).offset,
            final(self).delay == loop_delay(old(self).slaves@, old(self).ref_l_idx->0 as int, old(self).ref_p_idx),
            final(self).ref_p_idx == old(self).ref_p_idx,
            final(self).ref_l_idx == old(self).ref_l_idx,
            final(self).status == old(self).status,
    {
        let ghost s0 = self.slaves@;
        let reference = self.ref_p_idx;
        let mut prv: Option<usize> = None;
        let mut i: usize = self.slaves.len();
        while i > 0
            invariant
                i <= s0.len(),
                self.slaves@.len() == s0.len(),
                reference == self.ref_p_idx,
                self.ref_p_idx == old(self).ref_p_idx,
                self.ref_l_idx == old(self).ref_l_idx,
                self.status == old(self).status,
                s0 == old(self).slaves@,
                delays_defined(s0, reference),
                prv matches Some(p) ==> first_visible_from(s0, i as int, reference) == Some(p as int),
                prv is None ==> first_visible_from(s0, i as int, reference) is None,
                self.offset == old(self).offset,
                forall|k: int| 0 <= k < s0.len() ==> #[trigger] self.slaves@[k] == (SlaveInfo {
                    system_delay: if k >= i { loop_delay(s0, k, reference) } else { s0[k].system_delay },
                    ..s0[k]
                }),
            decreases i,
        {
            i = i - 1;
            proof {
                lemma_first_visible_bounds(s0, i as int, reference);
                lemma_first_visible_bounds(s0, i + 1, reference);
            }
            let mut slave = self.slaves[i];
            if slave.index >= reference {
                if let Some(p) = prv {
                    let previous = self.slaves[p];
                    let (s0t, s1t) = (slave.received_time[0], slave.received_time[1]);
                    let (p1, p2, p3) = (previous.received_time[1], previous.received_time[2], previous.received_time[3]);
                    proof {
                        assert(first_visible_from(s0, i + 1, reference) == Some(p as int));
                        assert(s0[i as int].index >= reference);
                        assert(pair_defined(s0[i as int], s0[p as int]));
                    }
                    if s1t != 0 {
                        if p3 != 0 {
                            slave.system_delay = ((s1t - s0t) - (p3 - p2) - (p2 - p1)) / 2;
                        } else if p2 != 0 {
                            slave.system_delay = ((s1t - s0t) - (p2 - p1)) / 2;
                        } else if p1 != 0 {
                            slave.system_delay = (s1t - s0t) / 2;
                        }
                    }
                    self.slaves.set(i, slave);
                }
                prv = Some(i);
            }
        }
        let l = match self.ref_l_idx {
            Some(l) => l,
            None => 0,
        };
        self.delay = self.slaves[l].system_delay;
        let mut reference_slave = self.slaves[l];
        reference_slave.system_delay = 0;
        self.slaves.set(l, reference_slave);
        let mut k: usize = 0;
        while k < self.slaves.len()
            invariant
                k <= s0.len(),
                self.slaves@.len() == s0.len(),
                l < s0.len(),
                l == old(self).ref_l_idx->0,
                reference == self.ref_p_idx,
                self.ref_p_idx == old(self).ref_p_idx,
                self.ref_l_idx == old(self).ref_l_idx,
                self.status == old(self).status,
                self.delay == loop_delay(s0, l as int, reference),
                self.offset == old(self).offset,
                forall|j: int| 0 <= j < s0.len() ==> #[trigger] self.slaves@[j] == (SlaveInfo {
                    system_delay: if j < k {
                        reference_delay(s0, j, reference, l as int)
                    } else if j == l {
                        0
                    } else {
                        loop_delay(s0, j, reference)
                    },
                    ..s0[j]
                }),
            decreases s0.len() - k,
        {
            let mut slave = self.slaves[k];
            if slave.index != reference && self.delay > slave.system_delay {
                slave.system_delay = self.delay - slave.system_delay;
                self.slaves.set(k, slave);
            }
            k = k + 1;
        }
        Ok(())
    }

    /**
        compute the offset between the master's local time, taken when the slaves latched their times, and the
        reference slave's local time; and the offset of each slave synchronized on the distributed clock to the
        reference (on the lower 32 bits of their local times)
    */
    pub fn update_offset(&mut self, local_time: u64)
        requires
            old(self).ref_l_idx matches Some(l) && l < old(self).slaves@.len()
                && local_time >= old(self).slaves@[l as int].local_time + old(self).delay,
        ensures
            final(self).offset == local_time - old(self).slaves@[old(self).ref_l_idx->0 as int].local_time - old(self).delay,
            final(self).slaves@.len() == old(self).slaves@.len(),
            forall|i: int| 0 <= i < old(self).slaves@.len() ==> #[trigger] final(self).slaves@[i] == if sync_rank(old(self).slaves@[i].clock_type) >= sync_rank(SlaveSyncType::DcSync0) {
                SlaveInfo {
                    system_offset: ((old(self).slaves@[i].local_time as u32) as int
                        - (old(self).slaves@[old(self).ref_l_idx->0 as int].local_time as u32) as int) as u64,
                    ..old(self).slaves@[i]
                }
            } else {
                old(self).slaves@[i]
            },
            final(self).delay == old(self).delay,
            final(self).ref_p_idx == old(self).ref_p_idx,
            final(self).ref_l_idx == old(self).ref_l_idx,
            final(self).status == old(self).status,
    {
        let l = match self.ref_l_idx {
            Some(l) => l,
            None => 0,
        };
        let ref_time = self.slaves[l].local_time;
        self.offset = local_time - ref_time - self.delay as u64;
        let ghost s0 = self.slaves@;
        let mut i: usize = 0;
        while i < self.slaves.len()
            invariant
                i <= s0.len(),
                self.slaves@.len() == s0.len(),
                s0 == old(self).slaves@,
                l == old(self).ref_l_idx->0,
                ref_time == s0[l as int].local_time,
                self.offset == local_time - ref_time - old(self).delay,
                self.delay == old(self).delay,
                self.ref_p_idx == old(self).ref_p_idx,
                self.ref_l_idx == old(self).ref_l_idx,
                self.status == old(self).status,
                forall|k: int| 0 <= k < s0.len() ==> #[trigger] self.slaves@[k] == if k < i && sync_rank(s0[k].clock_type) >= sync_rank(SlaveSyncType::DcSync0) {
                    SlaveInfo { system_offset: ((s0[k].local_time as u32) as int - (ref_time as u32) as int) as u64, ..s0[k] }
                } else {
                    s0[k]
                },
            decreases s0.len() - i,
        {
            let mut slave = self.slaves[i];
            if slave.clock_type.is_dc() {
                slave.system_offset = ((slave.local_time as u32) as i128 - (ref_time as u32) as i128) as u64;
                self.slaves.set(i, slave);
            }
            i = i + 1;
        }
    }

    /// record the difference between the system time of the slave at position `index` and the received system time: the
    /// slave is desynchronized when it exceeds 500ns; returns whether the slave just became desynchronized
    pub fn survey_time_sync(&mut self, index: usize, difference: TimeDifference) -> (r: bool)
        requires
            index < old(self).slaves@.len(),
        ensures
            final(self).slaves@ == old(self).slaves@.update(index as int, SlaveInfo { is_desync: difference.mean > 500, ..old(self).slaves@[index as int] }),
            r == (difference.mean > 500 && !old(self).slaves@[index as int].is_desync),
            final(self).status == old(self).status,
            final(self).ref_p_idx == old(self).ref_p_idx,
            final(self).ref_l_idx == old(self).ref_l_idx,
    {
        let mut slave = self.slaves[index];
        let previous = slave.is_desync;
        slave.is_desync = difference.mean > 500;
        self.slaves.set(index, slave);
        slave.is_desync && !previous
    }

    /// set the control loop parameters 1 and 3 of the slaves of the given loop index (the parameters to be written to them)
    pub fn set_loop_paramters(&mut self, slv_idx: u16, param_1: u16, param_3: u16)
        ensures
            final(self).slaves@.len() == old(self).slaves@.len(),
            forall|i: int| 0 <= i < old(self).slaves@.len() ==> if old(self).slaves@[i].index == slv_idx {
                &&& (#[trigger] final(self).slaves@[i]).control_loop_params@ == old(self).slaves@[i].control_loop_params@.update(0, param_1).update(2, param_3)
                &&& same_but_parameters(final(self).slaves@[i], old(self).slaves@[i])
            } else {
                final(self).slaves@[i] == old(self).slaves@[i]
            },
            final(self).status == old(self).status,
            final(self).ref_p_idx == old(self).ref_p_idx,
            final(self).ref_l_idx == old(self).ref_l_idx,
    {
        let ghost s0 = self.slaves@;
        let mut i: usize = 0;
        while i < self.slaves.len()
            invariant
                i <= s0.len(),
                self.slaves@.len() == s0.len(),
                s0 == old(self).slaves@,
                self.status == old(self).status,
                self.ref_p_idx == old(self).ref_p_idx,
                self.ref_l_idx == old(self).ref_l_idx,
                forall|k: int| 0 <= k < s0.len() ==> if k < i && s0[k].index == slv_idx {
                    &&& (#[trigger] self.slaves@[k]).control_loop_params@ == s0[k].control_loop_params@.update(0, param_1).update(2, param_3)
                    &&& same_but_parameters(self.slaves@[k], s0[k])
                } else {
                    self.slaves@[k] == s0[k]
                },
            decreases s0.len() - i,
        {
            let mut slave = self.slaves[i];
            if slave.index == slv_idx {
                slave.control_loop_params[0] = param_1;
                slave.control_loop_params[2] = param_3;
                self.slaves.set(i, slave);
                proof {
                    assert(slave.control_loop_params@ =~= s0[i as int].control_loop_params@.update(0, param_1).update(2, param_3));
                }
            }
            i = i + 1;
        }
    }

    /**
        register many slaves to this synchronisation instance, each configured with the given DC configuration (as
        [Self::set_dc_slave_config] does, so that slaves registered before with the same loop index are configured too)

        returns the number of registered slaves: the previous count plus the slaves given
    */
    pub fn slaves_register(&mut self, slaves: &[u16], config: SlaveClockConfigHelper) -> (r: Result<usize, EthercatError<&'static str>>)
        requires
            old(self).slaves@.len() + slaves@.len() + 1 <= usize::MAX,
        ensures
            old(self).status != ClockStatus::Registering ==> r == Err::<usize, EthercatError<&'static str>>(
                EthercatError::Slave("Cannot register slaves if clock is initialzed or running"))
                && final(self).slaves@ == old(self).slaves@,
            old(self).status == ClockStatus::Registering ==> {
                &&& r matches Ok(n) && n == old(self).slaves@.len() + slaves@.len()
                &&& final(self).slaves@ == configured_listed(with_registered(old(self).slaves@, slaves@), slaves@, config)
            },
            final(self).status == old(self).status,
    {
        if self.status != ClockStatus::Registering {
            return Err(EthercatError::Slave("Cannot register slaves if clock is initialzed or running"));
        }
        let start = self.slaves.len();
        let ghost base = with_registered(old(self).slaves@, slaves@);
        let mut count: usize = start;
        let mut i: usize = 0;
        while i < slaves.len()
            invariant
                i <= slaves@.len(),
                start == old(self).slaves@.len(),
                start + slaves@.len() + 1 <= usize::MAX,
                base == with_registered(old(self).slaves@, slaves@),
                self.slaves@.len() == start + i,
                count == start + i,
                self.status == ClockStatus::Registering,
                forall|j: int| 0 <= j < start + i ==> #[trigger] self.slaves@[j] == if slaves@.subrange(0, i as int).contains(base[j].index) {
                    configured(base[j], config)
                } else {
                    base[j]
                },
            decreases slaves@.len() - i,
        {
            let index = slaves[i];
            let ghost before = self.slaves@;
            let registered = self.slave_register(index);
            self.set_dc_slave_config(index, config);
            proof {
                let done = slaves@.subrange(0, i as int);
                let next = slaves@.subrange(0, i + 1);
                assert(next =~= done.push(index));
                assert(base[start + i] == slave_info_new(index));
                assert forall|j: int| 0 <= j < start + i + 1 implies #[trigger] self.slaves@[j] == if next.contains(base[j].index) {
                    configured(base[j], config)
                } else {
                    base[j]
                } by {
                    let pushed = before.push(slave_info_new(index));
                    assert(pushed[j].index == base[j].index);
                    if next.contains(base[j].index) && !done.contains(base[j].index) {
                        assert(base[j].index == index) by {
                            let k = choose|k: int| 0 <= k < next.len() && next[k] == base[j].index;
                            if k < i {
                                assert(done[k] == base[j].index);
                            }
                        }
                    }
                    if done.contains(base[j].index) {
                        assert(next.contains(base[j].index)) by {
                            let k = choose|k: int| 0 <= k < done.len() && done[k] == base[j].index;
                            assert(next[k] == base[j].index);
                        }
                        lemma_configured_twice(base[j], config);
                    }
                    if base[j].index == index {
                        assert(next[i as int] == index);
                    }
                }
            }
            count = count + 1;
            i = i + 1;
        }
        proof {
            assert(slaves@.subrange(0, slaves@.len() as int) =~= slaves@);
            assert(self.slaves@ =~= configured_listed(base, slaves@, config));
        }
        Ok(count)
    }

    /// marks the clock initialized, once delays and offsets are computed and sent
    pub fn initialized(&mut self)
        ensures
            *final(self) == (SyncClock { status: ClockStatus::Initialized, ..*old(self) }),
    {
        self.status = ClockStatus::Initialized;
    }

    /// Start dc synchronisation, the clock must be initialized
    pub fn start(&mut self) -> (r: Result<(), EthercatError<&'static str>>)
        ensures
            old(self).status != ClockStatus::Initialized ==> r == Err::<(), EthercatError<&'static str>>(
                EthercatError::Protocol("Cannot run DC clock synchro until delay wasn't computed"))
                && final(self).status == old(self).status && final(self).dc == old(self).dc,
            old(self).status == ClockStatus::Initialized ==> r is Ok && final(self).status == ClockStatus::Active && final(self).dc,
            final(self).slaves@ == old(self).slaves@,
            final(self).ref_p_idx == old(self).ref_p_idx,
            final(self).ref_l_idx == old(self).ref_l_idx,
    {
        if self.status != ClockStatus::Initialized {
            return Err(EthercatError::Protocol("Cannot run DC clock synchro until delay wasn't computed"));
        }
        self.status = ClockStatus::Active;
        self.dc = true;
        Ok(())
    }

    /// the system time of the distributed clock, estimated from the local time of the master (ns): once a
    /// reference slave is known, the local time less the offset to the reference, the transmission delay of the
    /// reference and a margin of 100µs for the frame to travel
    pub fn global_time(&self, local: u64) -> (r: u64)
        requires
            match self.ref_l_idx {
                Some(i) => i < self.slaves@.len()
                    && local >= self.offset + self.slaves@[i as int].system_delay + 100000,
                None => true,
            },
        ensures
            r == match self.ref_l_idx {
                Some(i) => local - self.offset - self.slaves@[i as int].system_delay - 100000,
                None => local as int,
            },
    {
        match self.ref_l_idx {
            Some(i) => local - self.offset - self.slaves[i].system_delay as u64 - 100000,
            None => local,
        }
    }

    /**
        one period of the running synchronization, once the system time difference of the watched slave (at
        position `watched`) was read: the slave is marked desynchronized when the difference exceeds 500ns, and
        the next period watches the next slave, going round the registered slaves
    */
    pub fn sync_period(&mut self, watched: usize, difference: TimeDifference) -> (r: usize)
        requires
            watched < old(self).slaves@.len(),
        ensures
            final(self).slaves@ == old(self).slaves@.update(
                watched as int,
                SlaveInfo { is_desync: difference.mean > 500, ..old(self).slaves@[watched as int] },
            ),
            r == if watched + 1 == old(self).slaves@.len() { 0 } else { watched + 1 },
            final(self).status == old(self).status,
            final(self).ref_p_idx == old(self).ref_p_idx,
            final(self).ref_l_idx == old(self).ref_l_idx,
    {
        let count = self.slaves.len();
        self.survey_time_sync(watched, difference);
        let next = watched + 1;
        if next == count { 0 } else { next }
    }

    /**
        initialize the clock with the reference slave of loop index `index`, from what was read of the slaves:
        `answered` slaves answered the broadcast read of the receive times, `samples[i]` holds the [CLOCK_SAMPLES]
        readings of the clock registers of the slave at position `i`, `links[i]` the link bits of its DL status when it
        answered, and `local_time` is the master's local time (ns) when the readings started

        the clocks of the slaves are reset and measured, then their delays and offsets are computed, and their clock
        control loops set for synchronizing; the values to write to the slaves are then given by [Self::settings]
    */
    #[verifier::rlimit(40)]
    pub fn init(
        &mut self,
        index: u16,
        answered: u16,
        samples: &[Vec<DistributedClock>],
        links: &[Option<u8>],
        local_time: u64,
    ) -> (r: Result<(), EthercatError<&'static str>>)
        requires
            samples@.len() == old(self).slaves@.len(),
            links@.len() == old(self).slaves@.len(),
            forall|i: int| 0 <= i < samples@.len() ==> (#[trigger] samples@[i])@.len() == CLOCK_SAMPLES,
            init_measures(old(self).slaves@, old(self).status, index, answered) ==> ({
                let m = measured(old(self).slaves@, old(self).status, samples@, links@);
                let l = last_index_of(old(self).slaves@, index)->0;
                &&& delays_defined(m, index)
                &&& local_time >= m[l].local_time + loop_delay(m, l, index)
            }),
        ensures
            index as nat > old(self).slaves@.len() ==> r == Err::<(), EthercatError<&'static str>>(
                EthercatError::Slave("Reference doesn't register in this DC instance")),
            index as nat <= old(self).slaves@.len() && old(self).status == ClockStatus::Active ==> r == Err::<(), EthercatError<&'static str>>(
                EthercatError::Slave("Cannot initialize a clack that active")),
            index as nat <= old(self).slaves@.len() && old(self).status != ClockStatus::Active && last_index_of(old(self).slaves@, index) is None
                ==> r == Err::<(), EthercatError<&'static str>>(EthercatError::Slave("Reference doesn't register in this DC instance")),
            index as nat <= old(self).slaves@.len() && old(self).status != ClockStatus::Active && last_index_of(old(self).slaves@, index) is Some
                && answered == 0 ==> r == Err::<(), EthercatError<&'static str>>(EthercatError::Protocol("DC initialisation - No slave found")),
            r is Ok <==> init_measures(old(self).slaves@, old(self).status, index, answered),
            r is Err ==> final(self).slaves@ == old(self).slaves@ && final(self).status == old(self).status,
            r is Ok ==> ({
                let m = measured(old(self).slaves@, old(self).status, samples@, links@);
                let l = last_index_of(old(self).slaves@, index)->0;
                &&& final(self).status == ClockStatus::Initialized
                &&& final(self).ref_p_idx == index
                &&& final(self).ref_l_idx == Some(l as usize)
                &&& final(self).delay == loop_delay(m, l, index)
                &&& final(self).offset == local_time - m[l].local_time - loop_delay(m, l, index)
                &&& final(self).slaves@ == Seq::new(m.len(), |i: int| initialized_slave(m, i, l, index))
            }),
    {
        let ghost s0 = self.slaves@;
        let ghost status = self.status;
        let found = self.init_reference(index);
        if found.is_err() {
            return found;
        }
        assert(found is Ok);
        assert(0 <= last_index_of(s0, index)->0 < s0.len());
        if answered == 0 {
            return Err(EthercatError::Protocol("DC initialisation - No slave found"));
        }
        let ghost l = last_index_of(s0, index)->0;
        let ghost m = measured(s0, status, samples@, links@);
        let count = self.slaves.len();
        assert(l < count);
        assert(self.ref_l_idx == Some(l as usize));
        assert((self.ref_l_idx->0) as int == l);
        self.init_measured(samples, links, local_time);
        assert(self.slaves@ == Seq::new(m.len(), |i: int| initialized_slave(m, i, l, index)));
        Ok(())
    }

    /**
        whether [Self::init] can compute the delays and offsets from what was read of the slaves: this is its
        requirement, checked; it holds whenever the initialization stops before the measurements
    */
    pub fn init_defined(
        &self,
        index: u16,
        answered: u16,
        samples: &[Vec<DistributedClock>],
        links: &[Option<u8>],
        local_time: u64,
    ) -> (r: bool)
        requires
            samples@.len() == self.slaves@.len(),
            links@.len() == self.slaves@.len(),
            forall|i: int| 0 <= i < samples@.len() ==> (#[trigger] samples@[i])@.len() == CLOCK_SAMPLES,
        ensures
            r == (init_measures(self.slaves@, self.status, index, answered) ==> ({
                let m = measured(self.slaves@, self.status, samples@, links@);
                let l = last_index_of(self.slaves@, index)->0;
                &&& delays_defined(m, index)
                &&& local_time >= m[l].local_time + loop_delay(m, l, index)
            })),
    {
        let mut scratch = self.copy();
        let found = scratch.init_reference(index);
        if found.is_err() || answered == 0 {
            return true;
        }
        let ghost l = last_index_of(self.slaves@, index)->0;
        let count = scratch.slaves.len();
        assert(l < count);
        assert(scratch.ref_l_idx->0 as int == l);
        scratch.measured_defined(samples, links, local_time)
    }

    /// a copy of the clock
    fn copy(&self) -> (r: SyncClock)
        ensures
            r == (SyncClock { slaves: r.slaves, ..*self }),
            r.slaves@ == self.slaves@,
    {
        let mut slaves: Vec<SlaveInfo> = Vec::new();
        let mut k: usize = 0;
        while k < self.slaves.len()
            invariant
                k <= self.slaves@.len(),
                slaves@ == self.slaves@.subrange(0, k as int),
            decreases self.slaves@.len() - k,
        {
            slaves.push(self.slaves[k]);
            k = k + 1;
        }
        assert(slaves@ =~= self.slaves@);
        SyncClock {
            ref_p_idx: self.ref_p_idx,
            ref_l_idx: self.ref_l_idx,
            offset: self.offset,
            delay: self.delay,
            shift: self.shift,
            continuous: self.continuous,
            slaves,
            cycle_time: self.cycle_time,
            drift_frm_count: self.drift_frm_count,
            status: self.status,
            dc: self.dc,
        }
    }

    /// whether the delays and the offset can be computed once the slaves are measured
    fn measured_defined(&mut self, samples: &[Vec<DistributedClock>], links: &[Option<u8>], local_time: u64) -> (r: bool)
        requires
            old(self).status != ClockStatus::Active,
            old(self).ref_l_idx matches Some(l) && l < old(self).slaves@.len(),
            samples@.len() == old(self).slaves@.len(),
            links@.len() == old(self).slaves@.len(),
            forall|i: int| 0 <= i < samples@.len() ==> (#[trigger] samples@[i])@.len() == CLOCK_SAMPLES,
        ensures
            r == ({
                let m = measured(old(self).slaves@, old(self).status, samples@, links@);
                let l = old(self).ref_l_idx->0 as int;
                &&& delays_defined(m, old(self).ref_p_idx)
                &&& local_time >= m[l].local_time + loop_delay(m, l, old(self).ref_p_idx)
            }),
    {
        let ghost s0 = self.slaves@;
        let ghost status = self.status;
        self.prepare();
        self.measure(samples, links);
        assert(self.slaves@ =~= measured(s0, status, samples@, links@));
        if !delays_computable(&self.slaves, self.ref_p_idx) {
            return false;
        }
        let ghost m = self.slaves@;
        let _ = self.update_delay();
        let reference = match self.ref_l_idx {
            Some(reference) => reference,
            None => 0,
        };
        assert(self.slaves@[reference as int].local_time == m[reference as int].local_time);
        (self.slaves[reference].local_time as u128) + (self.delay as u128) <= local_time as u128
    }

    /// the initialization once the reference is known
    fn init_measured(&mut self, samples: &[Vec<DistributedClock>], links: &[Option<u8>], local_time: u64)
        requires
            old(self).status != ClockStatus::Active,
            old(self).ref_l_idx matches Some(l) && l < old(self).slaves@.len(),
            samples@.len() == old(self).slaves@.len(),
            links@.len() == old(self).slaves@.len(),
            forall|i: int| 0 <= i < samples@.len() ==> (#[trigger] samples@[i])@.len() == CLOCK_SAMPLES,
            ({
                let m = measured(old(self).slaves@, old(self).status, samples@, links@);
                let l = old(self).ref_l_idx->0 as int;
                &&& delays_defined(m, old(self).ref_p_idx)
                &&& local_time >= m[l].local_time + loop_delay(m, l, old(self).ref_p_idx)
            }),
        ensures
            ({
                let m = measured(old(self).slaves@, old(self).status, samples@, links@);
                let l = old(self).ref_l_idx->0 as int;
                let reference = old(self).ref_p_idx;
                &&& final(self).status == ClockStatus::Initialized
                &&& final(self).ref_p_idx == reference
                &&& final(self).ref_l_idx == old(self).ref_l_idx
                &&& final(self).delay == loop_delay(m, l, reference)
                &&& final(self).offset == local_time - m[l].local_time - loop_delay(m, l, reference)
                &&& final(self).slaves@ == Seq::new(m.len(), |i: int| initialized_slave(m, i, l, reference))
            }),
    {
        let ghost s0 = self.slaves@;
        let ghost status = self.status;
        self.prepare();
        self.measure(samples, links);
        proof {
            assert(self.slaves@ =~= measured(s0, status, samples@, links@));
        }
        self.finish_init(local_time);
    }

    /// resets the clocks of the slaves (unless slaves are still being registered) and sets their clock control
    /// loops for measuring
    fn prepare(&mut self)
        requires
            old(self).status != ClockStatus::Active,
        ensures
            final(self).slaves@ == old(self).slaves@.map_values(|slave: SlaveInfo| prepared(slave, old(self).status)),
            final(self).status == old(self).status,
            final(self).ref_p_idx == old(self).ref_p_idx,
            final(self).ref_l_idx == old(self).ref_l_idx,
    {
        let ghost s0 = self.slaves@;
        let ghost status = self.status;
        self.reset();
        self.set_all_loop_parameters(LOOP_PARAMETER_0, LOOP_PARAMETER_2_MEASURE);
        proof {
            assert forall|j: int| 0 <= j < s0.len() implies #[trigger] self.slaves@[j] == prepared(s0[j], status) by {
                if status != ClockStatus::Registering {
                    assert(self.slaves@[j] == (SlaveInfo {
                        control_loop_params: [LOOP_PARAMETER_0, clock_cleared(s0[j]).control_loop_params[1], LOOP_PARAMETER_2_MEASURE],
                        ..clock_cleared(s0[j])
                    }));
                }
            }
            assert(self.slaves@ =~= s0.map_values(|slave: SlaveInfo| prepared(slave, status)));
        }
    }

    /// records the samples of the clock registers of each slave, and clears their unlinked ports
    fn measure(&mut self, samples: &[Vec<DistributedClock>], links: &[Option<u8>])
        requires
            samples@.len() == old(self).slaves@.len(),
            links@.len() == old(self).slaves@.len(),
            forall|i: int| 0 <= i < samples@.len() ==> (#[trigger] samples@[i])@.len() == CLOCK_SAMPLES,
        ensures
            *final(self) == (SyncClock { slaves: final(self).slaves, ..*old(self) }),
            final(self).slaves@ == Seq::new(old(self).slaves@.len(), |j: int| measured_slave(old(self).slaves@[j], samples@[j]@, links@[j])),
    {
        let ghost p = self.slaves@;
        let mut i: usize = 0;
        while i < self.slaves.len()
            invariant
                *self == (SyncClock { slaves: self.slaves, ..*old(self) }),
                p == old(self).slaves@,
                i <= self.slaves@.len(),
                self.slaves@.len() == p.len(),
                samples@.len() == p.len(),
                links@.len() == p.len(),
                forall|j: int| 0 <= j < samples@.len() ==> (#[trigger] samples@[j])@.len() == CLOCK_SAMPLES,
                forall|j: int| 0 <= j < p.len() ==> #[trigger] self.slaves@[j] == if j < i {
                    measured_slave(p[j], samples@[j]@, links@[j])
                } else {
                    p[j]
                },
            decreases p.len() - i,
        {
            self.record_samples(i, samples[i].as_slice());
            match links[i] {
                Some(bits) => self.clear_unlinked_ports(i, bits),
                None => {},
            }
            i = i + 1;
        }
        proof {
            assert(self.slaves@ =~= Seq::new(p.len(), |j: int| measured_slave(p[j], samples@[j]@, links@[j])));
        }
    }

    /// computes the delays and offsets of the measured slaves, sets their clock control loops for synchronizing,
    /// and marks the clock initialized
    fn finish_init(&mut self, local_time: u64)
        requires
            old(self).ref_l_idx matches Some(l) && l < old(self).slaves@.len(),
            delays_defined(old(self).slaves@, old(self).ref_p_idx),
            local_time >= old(self).slaves@[old(self).ref_l_idx->0 as int].local_time
                + loop_delay(old(self).slaves@, old(self).ref_l_idx->0 as int, old(self).ref_p_idx),
        ensures
            ({
                let m = old(self).slaves@;
                let l = old(self).ref_l_idx->0 as int;
                let reference = old(self).ref_p_idx;
                &&& final(self).status == ClockStatus::Initialized
                &&& final(self).ref_p_idx == reference
                &&& final(self).ref_l_idx == old(self).ref_l_idx
                &&& final(self).delay == loop_delay(m, l, reference)
                &&& final(self).offset == local_time - m[l].local_time - loop_delay(m, l, reference)
                &&& final(self).slaves@ == Seq::new(m.len(), |i: int| initialized_slave(m, i, l, reference))
            }),
    {
        let ghost m = self.slaves@;
        let ghost l = self.ref_l_idx->0 as int;
        let ghost reference = self.ref_p_idx;
        let _ = self.update_delay();
        let ghost d = self.slaves@;
        assert(d[l].local_time == m[l].local_time);
        self.update_offset(local_time);
        self.set_all_loop_parameters(LOOP_PARAMETER_0, LOOP_PARAMETER_2_SYNC);
        self.initialized();
        proof {
            assert forall|i: int| 0 <= i < m.len() implies #[trigger] self.slaves@[i] == initialized_slave(m, i, l, reference) by {
                assert(d[i] == (SlaveInfo { system_delay: reference_delay(m, i, reference, l), ..m[i] }));
            }
            assert(self.slaves@ =~= Seq::new(m.len(), |i: int| initialized_slave(m, i, l, reference)));
        }
    }

    /**
        stops a running synchronization, then, unless slaves are still being registered, resets the clock registers
        and the sync unit configuration kept for each slave (the master writes the same reset on the slaves)
    */
    pub fn reset(&mut self)
        ensures
            old(self).status == ClockStatus::Active ==> final(self).status == ClockStatus::Initialized,
            old(self).status != ClockStatus::Active ==> final(self).status == old(self).status,
            final(self).slaves@ == if old(self).status == ClockStatus::Registering {
                old(self).slaves@
            } else {
                old(self).slaves@.map_values(|slave: SlaveInfo| clock_cleared(slave))
            },
            final(self).ref_p_idx == old(self).ref_p_idx,
            final(self).ref_l_idx == old(self).ref_l_idx,
    {
        if self.status == ClockStatus::Active {
            self.status = ClockStatus::Initialized;
        }
        if self.status != ClockStatus::Registering {
            let ghost s0 = self.slaves@;
            let mut i: usize = 0;
            while i < self.slaves.len()
                invariant
                    i <= self.slaves@.len(),
                    self.slaves@.len() == s0.len(),
                    s0 == old(self).slaves@,
                    self.status == (if old(self).status == ClockStatus::Active { ClockStatus::Initialized } else { old(self).status }),
                    self.status != ClockStatus::Registering,
                    self.ref_p_idx == old(self).ref_p_idx,
                    self.ref_l_idx == old(self).ref_l_idx,
                    forall|j: int| 0 <= j < s0.len() ==> #[trigger] self.slaves@[j] == if j < i { clock_cleared(s0[j]) } else { s0[j] },
                decreases s0.len() - i,
            {
                let mut slave = self.slaves[i];
                slave.control_loop_params = [0, 0, 0];
                slave.received_time = [0, 0, 0, 0];
                slave.system_delay = 0;
                slave.system_time = 0;
                slave.local_time = 0;
                slave.system_offset = 0;
                slave.isochronous = Isochronous {
                    generate_sync0: false,
                    generate_sync1: false,
                    enable_cyclic: false,
                    interrupt0: false,
                    interrupt1: false,
                    sync_0_cycle_time: 0,
                    sync_1_cycle_time: 0,
                    sync_pulse: 0,
                };
                self.slaves.set(i, slave);
                i = i + 1;
            }
            proof {
                assert(self.slaves@ =~= s0.map_values(|slave: SlaveInfo| clock_cleared(slave)));
            }
        }
    }
}

/// number of samples of the clock registers of the slaves meant at initialization
pub const CLOCK_SAMPLES: usize = 8;
/// first parameter of the clock control loop of the slaves (ETG 1020 - 22.2.4)
pub const LOOP_PARAMETER_0: u16 = 0x1000;
/// third parameter of the clock control loop of the slaves while their delays and offsets are measured
pub const LOOP_PARAMETER_2_MEASURE: u16 = 0x0c04;
/// third parameter of the clock control loop of the slaves once their delays and offsets are set
pub const LOOP_PARAMETER_2_SYNC: u16 = 0x0c00;

/// a value of a sample of the clock registers of a slave: the times latched on ports 0 to 3, the system time, the local time
pub open spec fn sample_value(sample: DistributedClock, k: int) -> int {
    if k == 0 {
        sample.received_time_0 as int
    } else if k == 1 {
        sample.received_time_1 as int
    } else if k == 2 {
        sample.received_time_2 as int
    } else if k == 3 {
        sample.received_time_3 as int
    } else if k == 4 {
        sample.system_time as int
    } else {
        sample.receive_time_unit as int
    }
}

/// the sum of a value over samples of the clock registers
pub open spec fn samples_sum(samples: Seq<DistributedClock>, k: int) -> int
    decreases samples.len(),
{
    if samples.len() == 0 {
        0
    } else {
        samples_sum(samples.drop_last(), k) + sample_value(samples.last(), k)
    }
}

/// the mean of a value over samples of the clock registers
pub open spec fn samples_mean(samples: Seq<DistributedClock>, k: int) -> int {
    samples_sum(samples, k) / samples.len() as int
}

/// a slave whose registers were sampled: it holds the means of its latched times, system time and local time
pub open spec fn sampled(slave: SlaveInfo, samples: Seq<DistributedClock>) -> SlaveInfo {
    SlaveInfo {
        received_time: [
            samples_mean(samples, 0) as u32,
            samples_mean(samples, 1) as u32,
            samples_mean(samples, 2) as u32,
            samples_mean(samples, 3) as u32,
        ],
        system_time: samples_mean(samples, 4) as u64,
        local_time: samples_mean(samples, 5) as u64,
        ..slave
    }
}

/// the time latched on port `k` of a slave, cleared if the port has no link or if the time is before the one of port 0
pub open spec fn cleared_time(received: [u32; 4], links: u8, k: int) -> u32 {
    if k != 0 && (received@[k] < received@[0] || !linked(links, k)) {
        0
    } else {
        received@[k]
    }
}

/// values to write on a slave once the clock is initialized: its delay and offset, and its clock control loop parameters
#[derive(Copy, Clone, Debug, PartialEq, Eq, Structural)]
pub struct ClockSetting {
    /// index of the slave in the ethercat loop
    pub index: u16,
    /// transmission delay from the reference slave
    pub system_delay: u32,
    /// offset between the local time and the system time
    pub system_offset: u64,
    /// third parameter of the clock control loop
    pub loop_parameter_2: u16,
    /// first parameter of the clock control loop
    pub loop_parameter_0: u16,
}

/// the values to write on a slave
pub open spec fn setting_of(slave: SlaveInfo) -> ClockSetting {
    ClockSetting {
        index: slave.index,
        system_delay: slave.system_delay,
        system_offset: slave.system_offset,
        loop_parameter_2: slave.control_loop_params[2],
        loop_parameter_0: slave.control_loop_params[0],
    }
}

/// the values to write on the slaves at or after the reference slave in the loop, in order
pub open spec fn clock_settings(slaves: Seq<SlaveInfo>, reference: u16) -> Seq<ClockSetting>
    decreases slaves.len(),
{
    if slaves.len() == 0 {
        Seq::empty()
    } else {
        clock_settings(slaves.drop_last(), reference) + if slaves.last().index >= reference {
            seq![setting_of(slaves.last())]
        } else {
            Seq::empty()
        }
    }
}

/// the sum of a value over samples of the clock registers is at most the number of samples times the largest value
proof fn lemma_samples_sum_bound(samples: Seq<DistributedClock>, k: int, max: int)
    requires
        forall|i: int| 0 <= i < samples.len() ==> 0 <= #[trigger] sample_value(samples[i], k) <= max,
    ensures
        0 <= samples_sum(samples, k) <= samples.len() * max,
    decreases samples.len(),
{
    if samples.len() > 0 {
        assert forall|i: int| 0 <= i < samples.drop_last().len() implies 0 <= #[trigger] sample_value(samples.drop_last()[i], k) <= max by {
            assert(samples.drop_last()[i] == samples[i]);
        }
        lemma_samples_sum_bound(samples.drop_last(), k, max);
        assert(sample_value(samples[samples.len() - 1], k) <= max);
        assert((samples.len() - 1) * max + max == samples.len() * max) by (nonlinear_arith);
    }
}

/// the sum of a value over samples of the clock registers, and its bound
fn sum_samples(samples: &[DistributedClock], k: usize) -> (r: u128)
    requires
        k < 6,
        samples@.len() == CLOCK_SAMPLES,
    ensures
        r == samples_sum(samples@, k as int),
        r <= CLOCK_SAMPLES * (if k < 4 { u32::MAX as int } else { u64::MAX as int }),
{
    let ghost max: int = if k < 4 { u32::MAX as int } else { u64::MAX as int };
    let mut sum: u128 = 0;
    let mut i: usize = 0;
    while i < samples.len()
        invariant
            k < 6,
            samples@.len() == CLOCK_SAMPLES,
            max == if k < 4 { u32::MAX as int } else { u64::MAX as int },
            i <= samples@.len(),
            sum == samples_sum(samples@.subrange(0, i as int), k as int),
            sum <= i * max,
        decreases samples@.len() - i,
    {
        let sample = samples[i];
        let value: u128 = if k == 0 {
            sample.received_time_0 as u128
        } else if k == 1 {
            sample.received_time_1 as u128
        } else if k == 2 {
            sample.received_time_2 as u128
        } else if k == 3 {
            sample.received_time_3 as u128
        } else if k == 4 {
            sample.system_time as u128
        } else {
            sample.receive_time_unit as u128
        };
        proof {
            assert(samples@.subrange(0, i + 1).drop_last() =~= samples@.subrange(0, i as int));
            assert(samples@.subrange(0, i + 1).last() == samples@[i as int]);
            assert(value <= max);
            assert(i * max + max == (i + 1) * max) by (nonlinear_arith);
        }
        sum = sum + value;
        i = i + 1;
    }
    proof {
        assert(samples@.subrange(0, samples@.len() as int) =~= samples@);
    }
    sum
}

impl SyncClock {
    /// set the first and third parameters of the clock control loop of every registered slave
    pub fn set_all_loop_parameters(&mut self, parameter_0: u16, parameter_2: u16)
        ensures
            *final(self) == (SyncClock { slaves: final(self).slaves, ..*old(self) }),
            final(self).slaves@.len() == old(self).slaves@.len(),
            forall|i: int| 0 <= i < old(self).slaves@.len() ==> #[trigger] final(self).slaves@[i] == (SlaveInfo {
                control_loop_params: [parameter_0, old(self).slaves@[i].control_loop_params[1], parameter_2],
                ..old(self).slaves@[i]
            }),
    {
        let mut i: usize = 0;
        while i < self.slaves.len()
            invariant
                *self == (SyncClock { slaves: self.slaves, ..*old(self) }),
                self.slaves@.len() == old(self).slaves@.len(),
                i <= self.slaves@.len(),
                forall|j: int| 0 <= j < i ==> #[trigger] self.slaves@[j] == (SlaveInfo {
                    control_loop_params: [parameter_0, old(self).slaves@[j].control_loop_params[1], parameter_2],
                    ..old(self).slaves@[j]
                }),
                forall|j: int| i <= j < self.slaves@.len() ==> #[trigger] self.slaves@[j] == old(self).slaves@[j],
            decreases self.slaves@.len() - i,
        {
            let mut slave = self.slaves[i];
            slave.control_loop_params = [parameter_0, slave.control_loop_params[1], parameter_2];
            self.slaves.set(i, slave);
            i = i + 1;
        }
    }

    /**
        record on the slave at position `index` the mean of samples of its clock registers: the times latched on its
        ports, its system time and its local time (latched at the processing unit)
    */
    pub fn record_samples(&mut self, index: usize, samples: &[DistributedClock])
        requires
            index < old(self).slaves@.len(),
            samples@.len() == CLOCK_SAMPLES,
        ensures
            *final(self) == (SyncClock { slaves: final(self).slaves, ..*old(self) }),
            final(self).slaves@ == old(self).slaves@.update(index as int, sampled(old(self).slaves@[index as int], samples@)),
    {
        let mut slave = self.slaves[index];
        let r0 = sum_samples(samples, 0) / CLOCK_SAMPLES as u128;
        let r1 = sum_samples(samples, 1) / CLOCK_SAMPLES as u128;
        let r2 = sum_samples(samples, 2) / CLOCK_SAMPLES as u128;
        let r3 = sum_samples(samples, 3) / CLOCK_SAMPLES as u128;
        let st = sum_samples(samples, 4) / CLOCK_SAMPLES as u128;
        let lt = sum_samples(samples, 5) / CLOCK_SAMPLES as u128;
        slave.received_time = [r0 as u32, r1 as u32, r2 as u32, r3 as u32];
        slave.system_time = st as u64;
        slave.local_time = lt as u64;
        self.slaves.set(index, slave);
    }

    /**
        clear the times latched on the ports of the slave at position `index` that have no link (bit `k` of `links`
        for port `k`), or whose time is before the one of port 0: those times are absurd
    */
    pub fn clear_unlinked_ports(&mut self, index: usize, links: u8)
        requires
            index < old(self).slaves@.len(),
        ensures
            *final(self) == (SyncClock { slaves: final(self).slaves, ..*old(self) }),
            ({
                let received = old(self).slaves@[index as int].received_time;
                final(self).slaves@ == old(self).slaves@.update(index as int, SlaveInfo {
                    received_time: [
                        received[0],
                        cleared_time(received, links, 1),
                        cleared_time(received, links, 2),
                        cleared_time(received, links, 3),
                    ],
                    ..old(self).slaves@[index as int]
                })
            }),
    {
        let mut slave = self.slaves[index];
        let received = slave.received_time;
        let mut cleared = received;
        if received[3] < received[0] || !port_linked(links, 3) {
            cleared[3] = 0;
        }
        if received[2] < received[0] || !port_linked(links, 2) {
            cleared[2] = 0;
        }
        if received[1] < received[0] || !port_linked(links, 1) {
            cleared[1] = 0;
        }
        slave.received_time = [received[0], cleared[1], cleared[2], cleared[3]];
        self.slaves.set(index, slave);
    }

    /// the values to write on the slaves once the clock is initialized: those at or after the reference slave in the loop, in order
    pub fn settings(&self) -> (r: Vec<ClockSetting>)
        ensures
            r@ == clock_settings(self.slaves@, self.ref_p_idx),
    {
        let mut settings: Vec<ClockSetting> = Vec::new();
        let mut i: usize = 0;
        while i < self.slaves.len()
            invariant
                i <= self.slaves@.len(),
                settings@ == clock_settings(self.slaves@.subrange(0, i as int), self.ref_p_idx),
            decreases self.slaves@.len() - i,
        {
            let slave = self.slaves[i];
            proof {
                assert(self.slaves@.subrange(0, i + 1).drop_last() =~= self.slaves@.subrange(0, i as int));
                assert(self.slaves@.subrange(0, i + 1).last() == slave);
            }
            if slave.index >= self.ref_p_idx {
                settings.push(ClockSetting {
                    index: slave.index,
                    system_delay: slave.system_delay,
                    system_offset: slave.system_offset,
                    loop_parameter_2: slave.control_loop_params[2],
                    loop_parameter_0: slave.control_loop_params[0],
                });
            }
            proof {
                assert(settings@ =~= clock_settings(self.slaves@.subrange(0, i + 1), self.ref_p_idx));
            }
            i = i + 1;
        }
        proof {
            assert(self.slaves@.subrange(0, self.slaves@.len() as int) =~= self.slaves@);
        }
        settings
    }
}

/// highest sync channel whose synchronization can be configured
pub const MAX_SYNC_CHANNEL: u16 = 32;

/// the synchronization of a slave can be configured in this state: safe operational or operational
pub fn sync_configurable(state: AlState) -> (r: bool)
    ensures
        r == (state == AlState::SafeOperational || state == AlState::Operational),
{
    match state {
        AlState::SafeOperational | AlState::Operational => true,
        _ => false,
    }
}

/// the synchronization mode requested in the SDO of a sync channel for a synchronization type
pub open spec fn sync_mode_of(sync_type: SlaveSyncType) -> SyncMode {
    match sync_type {
        SlaveSyncType::Sm2 => SyncMode::SM2Sync,
        SlaveSyncType::Sm3 => SyncMode::SM3Sync,
        SlaveSyncType::DcSync0 => SyncMode::DCSync0,
        SlaveSyncType::DcSync1 => SyncMode::DCSync1,
        _ => SyncMode::FreeRun,
    }
}

/**
    the mode requested for a synchronization type is the mode of the same event, written with its ETG.1020 code in
    the subitem 1 of the synchronization SDO: SM2 synchronous 0x22, SM3 synchronous 0x01, SYNC0 0x02, SYNC1 0x03, and
    free run (0x00) for the types with no mode of their own; so no two of the SM2, SM3, SYNC0 and SYNC1 types ask the
    same mode
*/
pub proof fn law_sync_type_modes(sync_type: SlaveSyncType)
    ensures
        sync_mode_code(sync_mode_of(sync_type)) == match sync_type {
            SlaveSyncType::Sm2 => 0x22u16,
            SlaveSyncType::Sm3 => 0x01u16,
            SlaveSyncType::DcSync0 => 0x02u16,
            SlaveSyncType::DcSync1 => 0x03u16,
            _ => 0x00u16,
        },
        sync_mode_of(SlaveSyncType::DcSync1) == SyncMode::DCSync1,
        sync_mode_of(SlaveSyncType::DcSync0) == SyncMode::DCSync0,
        sync_mode_of(SlaveSyncType::Sm2) == SyncMode::SM2Sync,
        sync_mode_of(SlaveSyncType::Sm3) == SyncMode::SM3Sync,
        sync_mode_of(SlaveSyncType::DcSync0) != sync_mode_of(SlaveSyncType::DcSync1),
        sync_mode_of(SlaveSyncType::Sm2) != sync_mode_of(SlaveSyncType::Sm3),
{
}

/**
    the synchronization mode to write in the synchronization SDO of the sync channel `channel` (`0x1C32 + channel`)
    for a synchronization type: the types with no mode of their own run free. The channel must not exceed 32.
*/
pub fn sync_type_request(sync_type: SlaveSyncType, channel: u16) -> (r: Result<SyncMode, EthercatError<&'static str>>)
    ensures
        channel > MAX_SYNC_CHANNEL ==> r == Err::<SyncMode, EthercatError<&'static str>>(EthercatError::Protocol("Channel to high")),
        channel <= MAX_SYNC_CHANNEL ==> r == Ok::<SyncMode, EthercatError<&'static str>>(sync_mode_of(sync_type)),
{
    if channel > MAX_SYNC_CHANNEL {
        return Err(EthercatError::Protocol("Channel to high"));
    }
    Ok(match sync_type {
        SlaveSyncType::Sm2 => SyncMode::SM2Sync,
        SlaveSyncType::Sm3 => SyncMode::SM3Sync,
        SlaveSyncType::DcSync0 => SyncMode::DCSync0,
        SlaveSyncType::DcSync1 => SyncMode::DCSync1,
        _ => SyncMode::FreeRun,
    })
}

/// the slave supports the synchronization type, as its supported modes say
pub open spec fn sync_type_supported(sync_type: SlaveSyncType, capability: SyncModes) -> bool {
    match sync_type {
        SlaveSyncType::Sm2 => capability.sm,
        SlaveSyncType::DcSync0 => capability.dc_sync0,
        SlaveSyncType::DcSync1 => capability.dc_sync1,
        SlaveSyncType::DcSyncShiftSync1 => capability.dc_fixed,
        _ => true,
    }
}

/**
    check that a slave supports a synchronization type, given the synchronization modes it supports (`0x1C32:04`):
    synchronization on the SM2 event needs the SM mode, the DC types need their DC mode, and the DC type with shifted
    outputs and inputs needs the fixed DC mode
*/
pub fn sync_supported(sync_type: SlaveSyncType, capability: SyncModes) -> (r: Result<(), EthercatError<&'static str>>)
    ensures
        sync_type_supported(sync_type, capability) ==> r is Ok,
        !sync_type_supported(sync_type, capability) ==> r == Err::<(), EthercatError<&'static str>>(
            EthercatError::Protocol("Synchronization not supported by this slave")),
{
    let supported = match sync_type {
        SlaveSyncType::Sm2 => capability.sm,
        SlaveSyncType::DcSync0 => capability.dc_sync0,
        SlaveSyncType::DcSync1 => capability.dc_sync1,
        SlaveSyncType::DcSyncShiftSync1 => capability.dc_fixed,
        _ => true,
    };
    if supported {
        Ok(())
    } else {
        Err(EthercatError::Protocol("Synchronization not supported by this slave"))
    }
}

/**
    the cycle time measurement to request from a slave supporting a DC mode (`0x1C32:08`): the measure of the local
    cycle time and the reset of the event counters as asked, if asked
*/
pub fn sync_cycle_request(capability: SyncModes, get_cycle_time: Option<(bool, bool)>) -> (r: Option<SyncCycleControl>)
    ensures
        r == match get_cycle_time {
            Some((measure, reset)) => if capability.dc_sync0 || capability.dc_sync1 || capability.dc_fixed {
                Some(SyncCycleControl { measure_local_time: measure, reset_event_counter: reset, reserved: 0 })
            } else {
                None::<SyncCycleControl>
            },
            None => None::<SyncCycleControl>,
        },
{
    match get_cycle_time {
        Some((measure, reset)) => if capability.dc_sync0 || capability.dc_sync1 || capability.dc_fixed {
            Some(SyncCycleControl { measure_local_time: measure, reset_event_counter: reset, reserved: 0 })
        } else {
            None
        },
        None => None,
    }
}

} // verus!
