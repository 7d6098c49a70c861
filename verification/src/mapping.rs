//! tools to map the slaves' physical memory to the logical memory: the allocation of logical memory, the FMMU and sync channel configurations
use vstd::prelude::*;
use crate::data::{Field, PduData, Storage, Endianness, PackingResult, write_outcome_at};
use crate::registers::{
    SyncManagerChannel, FmmuEntry, SyncDirection, SyncMode, sync_mode_code, sync_direction_code,
    SYNC_MANAGER_CHANNEL_SIZE, fmmu,
};
use crate::sdo::{Sdo, SdoPart, Pdo, PdoEntry, SyncChannel, FIRST_SYNC_CHANNEL};

verus! {

/// start of the slave physical memory range used for sync channels mapping
pub const SLAVE_PHYSICAL_MAPPABLE_START: u16 = 0x1000;
/// end of the slave physical memory range used for sync channels mapping
pub const SLAVE_PHYSICAL_MAPPABLE_END: u16 = 0x1300;

/// allocator slot in logical memory
#[derive(Copy, Clone, Debug, PartialEq, Eq, Structural)]
pub struct LogicalSlot {
    /// byte size of the slot
    pub size: u32,
    /// start byte of the slot in the logical memory
    pub position: u32,
}

/// `a` comes before `b` in the order of slots: by size, then by position
pub open spec fn slot_before(a: LogicalSlot, b: LogicalSlot) -> bool {
    a.size < b.size || (a.size == b.size && a.position < b.position)
}

/// the byte range of `a` ends before `b` starts, or the other way round
pub open spec fn apart(a: LogicalSlot, b: LogicalSlot) -> bool {
    a.position + a.size <= b.position || b.position + b.size <= a.position
}

/// the byte range of `a` lies inside that of `b`
pub open spec fn within(a: LogicalSlot, b: LogicalSlot) -> bool {
    b.position <= a.position && a.position + a.size <= b.position + b.size
}

/// no two slots of the sequence share a byte
pub open spec fn all_apart(slots: Seq<LogicalSlot>) -> bool {
    forall|i: int, j: int| 0 <= i < slots.len() && 0 <= j < slots.len() && i != j
        ==> apart(#[trigger] slots[i], #[trigger] slots[j])
}

/// every slot ends inside the 32 bit logical memory
pub open spec fn slots_bounded(slots: Seq<LogicalSlot>) -> bool {
    forall|i: int| 0 <= i < slots.len() ==> #[trigger] slots[i].position + slots[i].size <= u32::MAX
}

/// the smallest slot of `slots` able to hold `size` bytes, the first of them in position order
pub open spec fn best_fit_in(slots: Seq<LogicalSlot>, size: u32, index: int) -> bool {
    &&& 0 <= index < slots.len()
    &&& slots[index].size >= size
    &&& forall|j: int| 0 <= j < slots.len() && slots[j].size >= size && j != index
        ==> slot_before(slots[index], #[trigger] slots[j])
}

/**
    what reserving `size` bytes does to the free slots `before`: with `Some(slot)`, the best fitting slot
    was taken and what remains of it beyond `size` stays free (once); with `None`, no slot was big enough
    and nothing changed
*/
pub open spec fn reserved(before: Seq<LogicalSlot>, size: u32, r: Option<LogicalSlot>, after: Seq<LogicalSlot>) -> bool {
    match r {
        Some(slot) => exists|i: int| {
            let removed = before.remove(i);
            let rest = LogicalSlot { position: (slot.position + size) as u32, size: (slot.size - size) as u32 };
            &&& #[trigger] best_fit_in(before, size, i)
            &&& slot == before[i]
            &&& after == if slot.size > size && !removed.contains(rest) {
                removed.push(rest)
            } else {
                removed
            }
        },
        None => after == before && forall|j: int| 0 <= j < before.len() ==> #[trigger] before[j].size < size,
    }
}

/// sum of the sizes of the slots
pub open spec fn total_size(slots: Seq<LogicalSlot>) -> nat
    decreases slots.len(),
{
    if slots.len() == 0 {
        0
    } else {
        total_size(slots.drop_last()) + slots.last().size as nat
    }
}

/// the free slots of the logical memory, each present once
pub struct FreeSlots {
    /// free slots, in no particular order
    pub slots: Vec<LogicalSlot>,
}

impl FreeSlots {
    /// no slot is present twice, no two slots overlap, and the free memory can be counted on 32 bits
    pub open spec fn wf(&self) -> bool {
        &&& forall|i: int, j: int| 0 <= i < j < self.slots@.len() ==> self.slots@[i] != self.slots@[j]
        &&& slots_bounded(self.slots@)
        &&& all_apart(self.slots@)
        &&& total_size(self.slots@) <= u32::MAX
    }

    /// the whole logical memory free
    pub fn new() -> (r: Self)
        ensures
            r.wf(),
            r.slots@ == seq![LogicalSlot { size: u32::MAX, position: 0 }],
    {
        let mut slots: Vec<LogicalSlot> = Vec::new();
        slots.push(LogicalSlot { size: u32::MAX, position: 0 });
        proof {
            assert(slots@.drop_last() =~= Seq::<LogicalSlot>::empty());
            assert(total_size(slots@.drop_last()) == 0);
            assert(total_size(slots@) == u32::MAX);
        }
        FreeSlots { slots }
    }

    /// the smallest slot able to hold `size` bytes, the first of them in position order
    pub open spec fn best_fit(&self, size: u32, index: int) -> bool {
        best_fit_in(self.slots@, size, index)
    }

    /// index of the best fitting slot for `size` bytes, if any slot is big enough
    pub fn find(&self, size: u32) -> (r: Option<usize>)
        requires
            self.wf(),
        ensures
            match r {
                Some(i) => self.best_fit(size, i as int),
                None => forall|j: int| 0 <= j < self.slots@.len() ==> #[trigger] self.slots@[j].size < size,
            },
    {
        let mut best: Option<usize> = None;
        let mut i: usize = 0;
        while i < self.slots.len()
            invariant
                self.wf(),
                i <= self.slots@.len(),
                match best {
                    Some(b) => b < i && self.slots@[b as int].size >= size && forall|j: int|
                        0 <= j < i && self.slots@[j].size >= size && j != b ==> slot_before(
                            self.slots@[b as int],
                            #[trigger] self.slots@[j],
                        ),
                    None => forall|j: int| 0 <= j < i ==> #[trigger] self.slots@[j].size < size,
                },
            decreases self.slots@.len() - i,
        {
            let slot = self.slots[i];
            if slot.size >= size {
                match best {
                    Some(b) => {
                        let current = self.slots[b];
                        if slot.size < current.size || (slot.size == current.size && slot.position < current.position) {
                            best = Some(i);
                            proof {
                                assert forall|j: int| 0 <= j < i + 1 && self.slots@[j].size >= size && j != i implies slot_before(
                                    self.slots@[i as int],
                                    #[trigger] self.slots@[j],
                                ) by {
                                    if j != b {
                                        assert(slot_before(current, self.slots@[j]));
                                    } else {
                                        assert(self.slots@[j] == current);
                                    }
                                }
                            }
                        } else {
                            proof {
                                assert(self.slots@[i as int] != current);
                                assert(slot_before(current, slot));
                            }
                        }
                    },
                    None => {
                        best = Some(i);
                    },
                }
            }
            i = i + 1;
        }
        best
    }

    /**
        reserve a slot of `size` bytes: the best fitting free slot is taken, and what remains of it beyond `size`
        stays free, starting right after the reserved bytes

        returns the slot taken, or `None` if no free slot is big enough
    */
    pub fn reserve(&mut self, size: u32) -> (r: Option<LogicalSlot>)
        requires
            old(self).wf(),
        ensures
            final(self).wf(),
            reserved(old(self).slots@, size, r, final(self).slots@),
    {
        match self.find(size) {
            None => None,
            Some(i) => {
                let slot = self.slots[i];
                let ghost before = self.slots@;
                proof {
                    lemma_total_remove(before, i as int);
                }
                self.slots.remove(i);
                let ghost removed = self.slots@;
                proof {
                    assert forall|a: int, b: int| 0 <= a < b < self.slots@.len() implies self.slots@[a] != self.slots@[b] by {
                        let a0 = if a < i { a } else { a + 1 };
                        let b0 = if b < i { b } else { b + 1 };
                        assert(self.slots@[a] == before[a0]);
                        assert(self.slots@[b] == before[b0]);
                    }
                    assert forall|a: int| 0 <= a < self.slots@.len() implies #[trigger] self.slots@[a].position + self.slots@[a].size <= u32::MAX by {
                        let a0 = if a < i { a } else { a + 1 };
                        assert(self.slots@[a] == before[a0]);
                    }
                }
                if slot.size > size {
                    let rest = LogicalSlot { position: slot.position + size, size: slot.size - size };
                    if !self.contains(rest) {
                        self.slots.push(rest);
                        proof {
                            assert(self.slots@.drop_last() =~= removed);
                            assert forall|a: int, b: int| 0 <= a < b < self.slots@.len() implies self.slots@[a] != self.slots@[b] by {
                                if b == self.slots@.len() - 1 {
                                    assert(self.slots@[a] == removed[a]);
                                }
                            }
                        }
                    }
                }
                Some(slot)
            },
        }
    }

    /// the slot is free
    pub fn contains(&self, slot: LogicalSlot) -> (r: bool)
        ensures
            r == self.slots@.contains(slot),
    {
        let mut i: usize = 0;
        while i < self.slots.len()
            invariant
                i <= self.slots@.len(),
                forall|j: int| 0 <= j < i ==> self.slots@[j] != slot,
            decreases self.slots@.len() - i,
        {
            if self.slots[i] == slot {
                return true;
            }
            i = i + 1;
        }
        false
    }

    /// remove a slot from the free slots, if present
    pub fn remove(&mut self, slot: LogicalSlot)
        requires
            old(self).wf(),
        ensures
            final(self).wf(),
            !final(self).slots@.contains(slot),
            forall|s: LogicalSlot| s != slot ==> (#[trigger] final(self).slots@.contains(s) == old(self).slots@.contains(s)),
    {
        let mut i: usize = 0;
        while i < self.slots.len()
            invariant
                i <= self.slots@.len(),
                self.slots@ == old(self).slots@,
                self.wf(),
                forall|j: int| 0 <= j < i ==> self.slots@[j] != slot,
            decreases self.slots@.len() - i,
        {
            if self.slots[i] == slot {
                let ghost before = self.slots@;
                proof {
                    lemma_total_remove(before, i as int);
                }
                self.slots.remove(i);
                proof {
                    assert forall|a: int, b: int| 0 <= a < b < self.slots@.len() implies self.slots@[a] != self.slots@[b] by {
                        let a0 = if a < i { a } else { a + 1 };
                        let b0 = if b < i { b } else { b + 1 };
                        assert(self.slots@[a] == before[a0]);
                        assert(self.slots@[b] == before[b0]);
                    }
                    assert forall|a: int| 0 <= a < self.slots@.len() implies #[trigger] self.slots@[a].position + self.slots@[a].size <= u32::MAX by {
                        let a0 = if a < i { a } else { a + 1 };
                        assert(self.slots@[a] == before[a0]);
                    }
                    assert forall|s: LogicalSlot| s != slot implies (#[trigger] self.slots@.contains(s) == before.contains(s)) by {
                        if before.contains(s) {
                            let k = choose|k: int| 0 <= k < before.len() && before[k] == s;
                            assert(k != i);
                            let k2 = if k < i { k } else { k - 1 };
                            assert(self.slots@[k2] == s);
                        }
                        if self.slots@.contains(s) {
                            let k = choose|k: int| 0 <= k < self.slots@.len() && self.slots@[k] == s;
                            let k0 = if k < i { k } else { k + 1 };
                            assert(before[k0] == s);
                        }
                    }
                    assert(!self.slots@.contains(slot)) by {
                        if self.slots@.contains(slot) {
                            let k = choose|k: int| 0 <= k < self.slots@.len() && self.slots@[k] == slot;
                            let k0 = if k < i { k } else { k + 1 };
                            assert(before[k0] == slot);
                        }
                    }
                }
                return;
            }
            i = i + 1;
        }
    }

    /// amount of free (potentially fragmented) memory in the logical memory
    pub fn free(&self) -> (r: u32)
        requires
            self.wf(),
        ensures
            r == total_size(self.slots@),
    {
        let mut total: u32 = 0;
        let mut i: usize = 0;
        while i < self.slots.len()
            invariant
                self.wf(),
                i <= self.slots@.len(),
                total == total_size(self.slots@.subrange(0, i as int)),
            decreases self.slots@.len() - i,
        {
            proof {
                assert(self.slots@.subrange(0, i + 1).drop_last() =~= self.slots@.subrange(0, i as int));
                lemma_total_prefix(self.slots@, i + 1);
            }
            total = total + self.slots[i].size;
            i = i + 1;
        }
        proof {
            assert(self.slots@.subrange(0, self.slots@.len() as int) =~= self.slots@);
        }
        total
    }

    /// amount of allocated memory in the logical memory
    pub fn allocated(&self) -> (r: u32)
        requires
            self.wf(),
        ensures
            r == u32::MAX - total_size(self.slots@),
    {
        u32::MAX - self.free()
    }
}

/// a range inside one that is apart from `c` is apart from `c` too
proof fn lemma_within_apart(a: LogicalSlot, b: LogicalSlot, c: LogicalSlot)
    requires
        within(a, b),
        apart(b, c),
    ensures
        apart(a, c),
        apart(c, a),
{
}

/**
    a group placed by `reserve` overlaps nothing that was apart before: given free slots and live groups
    of which no two share a byte, after `reserve` places a new group of `size` bytes, no two of the free
    slots left, the groups placed before and the new group share a byte
*/
pub proof fn law_reserve_keeps_groups_apart(
    before: Seq<LogicalSlot>,
    groups: Seq<LogicalSlot>,
    size: u32,
    slot: LogicalSlot,
    after: Seq<LogicalSlot>,
)
    requires
        slots_bounded(before),
        all_apart(before + groups),
        reserved(before, size, Some(slot), after),
    ensures
        all_apart(after + groups.push(LogicalSlot { size, position: slot.position })),
{
    let i = choose|i: int| {
        let removed = before.remove(i);
        let rest = LogicalSlot { position: (slot.position + size) as u32, size: (slot.size - size) as u32 };
        &&& #[trigger] best_fit_in(before, size, i)
        &&& slot == before[i]
        &&& after == if slot.size > size && !removed.contains(rest) {
            removed.push(rest)
        } else {
            removed
        }
    };
    let n = before.len() as int;
    let old_all = before + groups;
    let g = LogicalSlot { size, position: slot.position };
    let rest = LogicalSlot { position: (slot.position + size) as u32, size: (slot.size - size) as u32 };
    let new_all = after + groups.push(g);
    let na = after.len() as int;
    assert(slot.position + slot.size <= u32::MAX) by {
        assert(before[i].position + before[i].size <= u32::MAX);
    }
    assert(within(g, slot));
    assert(slot.size > size ==> within(rest, slot));
    assert(old_all[i] == slot);
    // each new range lies inside an old one; only the new group and the rest share an old one
    assert forall|a: int, b: int| 0 <= a < new_all.len() && 0 <= b < new_all.len() && a != b
        implies apart(#[trigger] new_all[a], #[trigger] new_all[b]) by {
        let oa = if a < n - 1 { if a < i { a } else { a + 1 } } else if a < na { i } else if a < na + groups.len() { n + (a - na) } else { i };
        let ob = if b < n - 1 { if b < i { b } else { b + 1 } } else if b < na { i } else if b < na + groups.len() { n + (b - na) } else { i };
        assert(within(new_all[a], old_all[oa]));
        assert(within(new_all[b], old_all[ob]));
        if oa != ob {
            assert(apart(old_all[oa], old_all[ob]));
            lemma_within_apart(new_all[a], old_all[oa], old_all[ob]);
            lemma_within_apart(new_all[b], old_all[ob], new_all[a]);
        } else {
            assert(oa == i);
            assert((new_all[a] == g && new_all[b] == rest) || (new_all[a] == rest && new_all[b] == g));
        }
    }
}

/// the total size of a prefix of slots is at most the total size of all of them
pub proof fn lemma_total_prefix(slots: Seq<LogicalSlot>, n: int)
    requires
        0 <= n <= slots.len(),
    ensures
        total_size(slots.subrange(0, n)) <= total_size(slots),
    decreases slots.len(),
{
    if n < slots.len() {
        assert(slots.drop_last().subrange(0, n) =~= slots.subrange(0, n));
        lemma_total_prefix(slots.drop_last(), n);
    } else {
        assert(slots.subrange(0, n) =~= slots);
    }
}

/// the total size of the slots, once one of them is removed
pub proof fn lemma_total_remove(slots: Seq<LogicalSlot>, i: int)
    requires
        0 <= i < slots.len(),
    ensures
        total_size(slots) == total_size(slots.remove(i)) + slots[i].size,
    decreases slots.len(),
{
    if i == slots.len() - 1 {
        assert(slots.remove(i) =~= slots.drop_last());
    } else {
        lemma_total_remove(slots.drop_last(), i);
        assert(slots.remove(i).drop_last() =~= slots.drop_last().remove(i));
        assert(slots.remove(i).last() == slots.last());
    }
}


/// configuration for a slave FMMU
#[derive(Copy, Clone, Debug, PartialEq, Eq, Structural)]
pub struct ConfigFmmu {
    /// whether the mapped memory is read or written by the master
    pub direction: SyncDirection,
    /// byte size of the mapped memory
    pub length: u16,
    /// start of the mapped memory in the slave's physical memory
    pub physical: u16,
    /// start of the mapped memory in the logical memory
    pub logical: u32,
}

/// the insertion of data at `position` of the physical memory and `offset` of the logical memory continues the memory mapped by `last`
pub open spec fn continues(last: ConfigFmmu, offset: u32, position: u16, direction: SyncDirection) -> bool {
    last.logical + last.length == offset && last.physical + last.length == position && last.direction == direction
}

/// a new FMMU is needed to map data inserted at `position` of the physical memory and `offset` of the logical memory
pub open spec fn needs_fmmu(fmmu: Seq<ConfigFmmu>, offset: u32, position: u16, direction: SyncDirection) -> bool {
    fmmu.len() == 0 || !continues(fmmu.last(), offset, position, direction)
}

/// the FMMUs after mapping `length` bytes at `position` of the physical memory and `offset` of the logical memory:
/// the last FMMU grows if the data continues it, else a new FMMU maps the data
pub open spec fn fmmu_after_insert(fmmu: Seq<ConfigFmmu>, offset: u32, position: u16, direction: SyncDirection, length: usize) -> Seq<ConfigFmmu> {
    if needs_fmmu(fmmu, offset, position, direction) {
        fmmu.push(ConfigFmmu { direction, length: length as u16, logical: offset, physical: position })
    } else {
        fmmu.drop_last().push(ConfigFmmu { length: (fmmu.last().length + length) as u16, ..fmmu.last() })
    }
}

/// configuration for a slave PDO: the sdos it maps, in order
#[derive(Clone)]
pub struct ConfigPdo {
    /// the sdo configuring the pdo
    pub config: Pdo,
    /// the sdos mapped in the pdo
    pub sdos: Vec<Sdo>,
}

/// configuration for a slave sync manager channel
#[derive(Clone)]
pub struct ConfigChannel {
    /// the sdo configuring the channel
    pub config: SyncChannel,
    /// indices of the pdos assigned to the channel, in order
    pub pdos: Vec<u16>,
    /// start of the channel's buffer in the slave's physical memory
    pub start: u16,
}

/// configuration for one slave: its pdos, its sync channels and its FMMUs
#[derive(Clone)]
pub struct ConfigSlave {
    /// the pdos, at most one per index
    pub pdos: Vec<ConfigPdo>,
    /// the sync channels, at most one per index
    pub channels: Vec<ConfigChannel>,
    /// the FMMUs
    pub fmmu: Vec<ConfigFmmu>,
}

impl ConfigSlave {
    /// an empty configuration
    pub fn new() -> (r: Self)
        ensures
            r.wf(),
            r.pdos@.len() == 0,
            r.channels@.len() == 0,
            r.fmmu@.len() == 0,
    {
        ConfigSlave { pdos: Vec::new(), channels: Vec::new(), fmmu: Vec::new() }
    }

    /// no pdo and no sync channel is configured twice
    pub open spec fn wf(&self) -> bool {
        &&& forall|i: int, j: int| 0 <= i < j < self.pdos@.len() ==> self.pdos@[i].config.index != self.pdos@[j].config.index
        &&& forall|i: int, j: int| 0 <= i < j < self.channels@.len() ==> self.channels@[i].config.index != self.channels@[j].config.index
    }

    /// position of the pdo of the given index in the configuration, or the number of pdos if there is none
    pub fn pdo_position(&self, index: u16) -> (r: usize)
        ensures
            r <= self.pdos@.len(),
            r < self.pdos@.len() ==> self.pdos@[r as int].config.index == index,
            r == self.pdos@.len() ==> forall|k: int| 0 <= k < self.pdos@.len() ==> self.pdos@[k].config.index != index,
    {
        let mut i: usize = 0;
        while i < self.pdos.len()
            invariant
                i <= self.pdos@.len(),
                forall|k: int| 0 <= k < i ==> self.pdos@[k].config.index != index,
            decreases self.pdos@.len() - i,
        {
            if self.pdos[i].config.index == index {
                return i;
            }
            i = i + 1;
        }
        i
    }

    /// position of the sync channel of the given index in the configuration, or the number of channels if there is none
    pub fn channel_position(&self, index: u16) -> (r: usize)
        ensures
            r <= self.channels@.len(),
            r < self.channels@.len() ==> self.channels@[r as int].config.index == index,
            r == self.channels@.len() ==> forall|k: int| 0 <= k < self.channels@.len() ==> self.channels@[k].config.index != index,
    {
        let mut i: usize = 0;
        while i < self.channels.len()
            invariant
                i <= self.channels@.len(),
                forall|k: int| 0 <= k < i ==> self.channels@[k].config.index != index,
            decreases self.channels@.len() - i,
        {
            if self.channels[i].config.index == index {
                return i;
            }
            i = i + 1;
        }
        i
    }
}

/**
    state of the mapping of one slave: its configuration, and the position of the next data in the physical memory
    region used for sync channels

    data coming from one's slave physical memory shall not interlace (this is a limitation due to this library, not ethercat)
*/
pub struct MappingSlave {
    /// configuration built so far
    pub config: ConfigSlave,
    /// position in the physical memory mapping region
    pub buffer: u16,
    /// increment to add to `buffer` once the current mapped channel is done.
    /// this is handling the memory that must be reserved after sync channels to allow the slave to perform buffer swapping
    pub additional: u16,
}

/// the position of the physical memory buffer once a channel is done: after the reserved memory, aligned to a word
pub open spec fn finished_buffer(buffer: u16, additional: u16) -> int {
    (buffer + additional) + (buffer + additional) % 2
}

impl MappingSlave {
    /// a slave with nothing mapped yet
    pub fn new() -> (r: Self)
        ensures
            r.config.wf(),
            r.config.pdos@.len() == 0,
            r.config.channels@.len() == 0,
            r.config.fmmu@.len() == 0,
            r.buffer == SLAVE_PHYSICAL_MAPPABLE_START,
            r.additional == 0,
    {
        MappingSlave { config: ConfigSlave::new(), buffer: SLAVE_PHYSICAL_MAPPABLE_START, additional: 0 }
    }

    /// the position where data is inserted: the given one or the next free position in the physical memory
    pub open spec fn insert_position(&self, position: Option<u16>) -> u16 {
        match position {
            Some(p) => p,
            None => self.buffer,
        }
    }

    /// inserting `length` bytes runs to completion
    pub open spec fn insert_defined(&self, offset: u32, direction: SyncDirection, length: usize, position: Option<u16>) -> bool {
        let p = self.insert_position(position);
        let fmmu = self.config.fmmu@;
        &&& length <= u16::MAX
        &&& offset + length <= u32::MAX
        &&& position is None ==> self.buffer + length <= SLAVE_PHYSICAL_MAPPABLE_END
        &&& fmmu.len() > 0 ==> fmmu.last().logical + fmmu.last().length <= u32::MAX
            && fmmu.last().physical + fmmu.last().length <= u16::MAX
        &&& !needs_fmmu(fmmu, offset, p, direction) ==> fmmu.last().length + length <= u16::MAX
    }

    /// the state once the current channel is done
    pub open spec fn finished(&self) -> MappingSlave {
        MappingSlave { config: self.config, buffer: finished_buffer(self.buffer, self.additional) as u16, additional: 0 }
    }

    /**
        map `length` bytes of the slave's physical memory at the logical memory `offset`, and increment it; return the logical offset of the mapped data

        the data is placed at the given position of the physical memory, or at the next free position in the mapping region.
        if the logical or physical contiguity is broken since the last insertion, a new FMMU is configured
    */
    pub fn insert(&mut self, offset: &mut u32, direction: SyncDirection, length: usize, position: Option<u16>) -> (r: usize)
        requires
            old(self).insert_defined(*old(offset), direction, length, position),
        ensures
            r == *old(offset),
            *final(offset) == *old(offset) + length,
            final(self).additional == old(self).additional,
            final(self).buffer == if position is None { (old(self).buffer + length) as u16 } else { old(self).buffer },
            final(self).config.fmmu@ == fmmu_after_insert(old(self).config.fmmu@, *old(offset), old(self).insert_position(position), direction, length),
            final(self).config.pdos == old(self).config.pdos,
            final(self).config.channels == old(self).config.channels,
    {
        let position = match position {
            Some(p) => p,
            None => {
                let p = self.buffer;
                self.buffer = self.buffer + length as u16;
                p
            },
        };
        let change = if self.config.fmmu.len() > 0 {
            let last = self.config.fmmu[self.config.fmmu.len() - 1];
            last.logical + last.length as u32 != *offset || last.physical + last.length != position || last.direction != direction
        } else {
            true
        };
        if change {
            self.config.fmmu.push(ConfigFmmu { direction, length: length as u16, logical: *offset, physical: position });
        } else {
            let k = self.config.fmmu.len() - 1;
            let last = self.config.fmmu[k];
            self.config.fmmu.set(k, ConfigFmmu { length: last.length + length as u16, ..last });
            proof {
                assert(self.config.fmmu@ =~= old(self).config.fmmu@.drop_last().push(ConfigFmmu { length: (old(self).config.fmmu@.last().length + length) as u16, ..old(self).config.fmmu@.last() }));
            }
        }
        let inserted = *offset as usize;
        *offset = *offset + length as u32;
        inserted
    }

    /// increment the value offset with the reserved additional size, and align it to a word
    pub fn finish(&mut self)
        requires
            old(self).buffer + old(self).additional + 1 <= u16::MAX,
        ensures
            *final(self) == old(self).finished(),
    {
        self.buffer = self.buffer + self.additional;
        // the physical memory buffer must be word-aligned (at least on some devices)
        self.buffer = self.buffer + self.buffer % 2;
        self.additional = 0;
    }

    /// map the range `start .. end` of the physical memory, and return its matching range in the logical memory
    pub fn range(&mut self, offset: &mut u32, direction: SyncDirection, start: u16, end: u16) -> (r: (usize, usize))
        requires
            start <= end,
            old(self).buffer + old(self).additional + 1 <= u16::MAX,
            old(self).finished().insert_defined(*old(offset), direction, (end - start) as usize, Some(start)),
        ensures
            r.0 == *old(offset),
            r.1 == *old(offset) + (end - start),
            *final(offset) == *old(offset) + (end - start),
            final(self).buffer == finished_buffer(old(self).buffer, old(self).additional),
            final(self).additional == 0,
            final(self).config.fmmu@ == fmmu_after_insert(old(self).config.fmmu@, *old(offset), start, direction, (end - start) as usize),
            final(self).config.pdos == old(self).config.pdos,
            final(self).config.channels == old(self).config.channels,
    {
        self.finish();
        let size = (end - start) as usize;
        let first = self.insert(offset, direction, size, Some(start));
        (first, first + size)
    }

    /// map a field in the physical memory (a register), and return the location of its copy in the logical memory
    pub fn register<T: PduData>(&mut self, offset: &mut u32, direction: SyncDirection, field: Field<T>) -> (r: Field<T>)
        requires
            field.offset <= u16::MAX,
            old(self).buffer + old(self).additional + 1 <= u16::MAX,
            old(self).finished().insert_defined(*old(offset), direction, field.len, Some(field.offset as u16)),
        ensures
            r.offset == *old(offset),
            r.len == field.len,
            r.endian == Endianness::Little,
            *final(offset) == *old(offset) + field.len,
            final(self).buffer == finished_buffer(old(self).buffer, old(self).additional),
            final(self).additional == 0,
            final(self).config.fmmu@ == fmmu_after_insert(old(self).config.fmmu@, *old(offset), field.offset as u16, direction, field.len),
            final(self).config.pdos == old(self).config.pdos,
            final(self).config.channels == old(self).config.channels,
    {
        self.finish();
        let o = self.insert(offset, direction, field.len, Some(field.offset as u16));
        Field::new(o, field.len)
    }

    /**
        map a sync manager channel, whose buffer starts at the current position of the physical memory once the previous channel is done;
        return its position in the configuration of the slave. A channel configured before under the same index is replaced.

        mapping on the mailbox channels (0x1c10, 0x1c11) is forbidden
    */
    pub fn channel(&mut self, sdo: SyncChannel) -> (r: usize)
        requires
            old(self).config.wf(),
            old(self).buffer + old(self).additional + 1 <= u16::MAX,
            FIRST_SYNC_CHANNEL + 2 <= sdo.index < FIRST_SYNC_CHANNEL + 16,
        ensures
            final(self).config.wf(),
            final(self).buffer == finished_buffer(old(self).buffer, old(self).additional),
            final(self).additional == 0,
            final(self).config.fmmu == old(self).config.fmmu,
            final(self).config.pdos == old(self).config.pdos,
            r < final(self).config.channels@.len(),
            final(self).config.channels@[r as int].config == sdo,
            final(self).config.channels@[r as int].pdos@.len() == 0,
            final(self).config.channels@[r as int].start == final(self).buffer,
            r < old(self).config.channels@.len() ==> old(self).config.channels@[r as int].config.index == sdo.index
                && final(self).config.channels@ == old(self).config.channels@.update(r as int, final(self).config.channels@[r as int]),
            r == old(self).config.channels@.len() ==> (forall|k: int| 0 <= k < old(self).config.channels@.len() ==> old(self).config.channels@[k].config.index != sdo.index)
                && final(self).config.channels@ == old(self).config.channels@.push(final(self).config.channels@[r as int]),
    {
        self.finish();
        let position = self.config.channel_position(sdo.index);
        let entry = ConfigChannel { config: sdo, pdos: Vec::new(), start: self.buffer };
        if position < self.config.channels.len() {
            self.config.channels.set(position, entry);
        } else {
            self.config.channels.push(entry);
        }
        position
    }

    /**
        assign a pdo to the sync channel at position `channel` in the configuration, with no sdo mapped yet;
        return the position of the pdo in the configuration. A pdo configured before under the same index is replaced.
    */
    pub fn push_pdo(&mut self, channel: usize, pdo: Pdo) -> (r: usize)
        requires
            old(self).config.wf(),
            channel < old(self).config.channels@.len(),
            old(self).config.channels@[channel as int].pdos@.len() < old(self).config.channels@[channel as int].config.capacity,
        ensures
            final(self).config.wf(),
            final(self).buffer == old(self).buffer,
            final(self).additional == old(self).additional,
            final(self).config.fmmu == old(self).config.fmmu,
            final(self).config.channels@.len() == old(self).config.channels@.len(),
            forall|k: int| 0 <= k < old(self).config.channels@.len() && k != channel ==> final(self).config.channels@[k] == old(self).config.channels@[k],
            final(self).config.channels@[channel as int].config == old(self).config.channels@[channel as int].config,
            final(self).config.channels@[channel as int].start == old(self).config.channels@[channel as int].start,
            final(self).config.channels@[channel as int].pdos@ == old(self).config.channels@[channel as int].pdos@.push(pdo.index),
            r < final(self).config.pdos@.len(),
            final(self).config.pdos@[r as int].config == pdo,
            final(self).config.pdos@[r as int].sdos@.len() == 0,
            r < old(self).config.pdos@.len() ==> old(self).config.pdos@[r as int].config.index == pdo.index
                && final(self).config.pdos@ == old(self).config.pdos@.update(r as int, final(self).config.pdos@[r as int]),
            r == old(self).config.pdos@.len() ==> (forall|k: int| 0 <= k < old(self).config.pdos@.len() ==> old(self).config.pdos@[k].config.index != pdo.index)
                && final(self).config.pdos@ == old(self).config.pdos@.push(final(self).config.pdos@[r as int]),
    {
        self.config.channels[channel].pdos.push(pdo.index);
        let position = self.config.pdo_position(pdo.index);
        let entry = ConfigPdo { config: pdo, sdos: Vec::new() };
        if position < self.config.pdos.len() {
            self.config.pdos.set(position, entry);
        } else {
            self.config.pdos.push(entry);
        }
        position
    }

    /**
        map an sdo in the pdo at position `pdo` of the configuration, assigned to the sync channel at position `channel`,
        and return its location in the logical memory

        the sync channel must allocate 3 times the channel size to allow the slave to perform buffer swapping
        (the sync channel 3-buffer mode, which is mendatory for realtime operations):
        the first third is mapped at once, the 2 last are reserved once the channel is done
    */
    pub fn push_sdo<T: PduData>(&mut self, offset: &mut u32, channel: usize, pdo: usize, sdo: Sdo<T>) -> (r: Field<T>)
        requires
            old(self).config.wf(),
            channel < old(self).config.channels@.len(),
            pdo < old(self).config.pdos@.len(),
            old(self).config.pdos@[pdo as int].sdos@.len() < old(self).config.pdos@[pdo as int].config.capacity,
            sdo.field.len + 7 <= usize::MAX,
            old(self).additional + 2 * ((sdo.field.len + 7) / 8) <= u16::MAX,
            old(self).insert_defined(*old(offset), old(self).config.channels@[channel as int].config.direction, ((sdo.field.len + 7) / 8) as usize, None),
        ensures
            r.offset == *old(offset),
            r.len == (sdo.field.len + 7) / 8,
            r.endian == Endianness::Little,
            *final(offset) == *old(offset) + r.len,
            final(self).additional == old(self).additional + 2 * r.len,
            final(self).buffer == old(self).buffer + r.len,
            final(self).config.wf(),
            final(self).config.fmmu@ == fmmu_after_insert(old(self).config.fmmu@, *old(offset), old(self).buffer, old(self).config.channels@[channel as int].config.direction, r.len),
            final(self).config.channels == old(self).config.channels,
            final(self).config.pdos@.len() == old(self).config.pdos@.len(),
            forall|k: int| 0 <= k < old(self).config.pdos@.len() && k != pdo ==> final(self).config.pdos@[k] == old(self).config.pdos@[k],
            final(self).config.pdos@[pdo as int].config == old(self).config.pdos@[pdo as int].config,
            final(self).config.pdos@[pdo as int].sdos@.len() == old(self).config.pdos@[pdo as int].sdos@.len() + 1,
            final(self).config.pdos@[pdo as int].sdos@.drop_last() == old(self).config.pdos@[pdo as int].sdos@,
            ({
                let added = final(self).config.pdos@[pdo as int].sdos@.last();
                added.index == sdo.index && added.sub == sdo.sub && added.field.offset == sdo.field.offset
                    && added.field.len == sdo.field.len && added.field.endian == Endianness::Little
            }),
    {
        let direction = self.config.channels[channel].config.direction;
        let len = (sdo.field.len + 7) / 8;
        let ghost before = self.config.pdos@[pdo as int].sdos@;
        self.config.pdos[pdo].sdos.push(sdo.downcast());
        proof {
            assert(self.config.pdos@[pdo as int].sdos@.drop_last() =~= before);
        }
        self.additional = self.additional + 2 * len as u16;
        let start = self.insert(offset, direction, len, None);
        Field::new(start, len)
    }
}

/// After an insertion, the last FMMU of the slave ends at the new logical offset: the logical memory is mapped without gap.
pub proof fn law_insert_keeps_contiguity(fmmu: Seq<ConfigFmmu>, offset: u32, position: u16, direction: SyncDirection, length: usize)
    requires
        length <= u16::MAX,
        offset + length <= u32::MAX,
        !needs_fmmu(fmmu, offset, position, direction) ==> fmmu.last().length + length <= u16::MAX,
    ensures
        fmmu_after_insert(fmmu, offset, position, direction, length).len() > 0,
        fmmu_after_insert(fmmu, offset, position, direction, length).last().logical
            + fmmu_after_insert(fmmu, offset, position, direction, length).last().length == offset + length,
        fmmu_after_insert(fmmu, offset, position, direction, length).last().direction == direction,
{
}

/// configuration of a sync manager channel exchanging buffered data mapped to the logical memory
pub fn channel_config(start: u16, size: u16, direction: SyncDirection, enabled: bool) -> (r: SyncManagerChannel)
    ensures
        r.address == start,
        r.length == size,
        r.spec_mode() == sync_mode_code(SyncMode::Buffered),
        r.spec_direction() == sync_direction_code(direction),
        r.spec_dls_user_event(),
        !r.spec_ec_event(),
        r.spec_watchdog() == (direction == SyncDirection::Write),
        r.spec_enable() == enabled,
        !r.spec_repeat(),
        r.status == 0,
        r.pdi == 0,
        r == channel_entry(start, size, direction, enabled),
{
    let mut config = SyncManagerChannel { address: 0, length: 0, control: 0, status: 0, activate: 0, pdi: 0 };
    config.address = start;
    config.length = size;
    config.set_mode(SyncMode::Buffered.code());
    config.set_direction(direction.code());
    config.set_dls_user_event(true);
    config.set_watchdog(direction == SyncDirection::Write);
    config.set_enable(enabled);
    config
}

/**
    configuration of an FMMU entry mapping the given slave memory to the logical memory of a group starting at `offset`

    FMMU entry mode read/write are exclusive; no bit alignment is supported now, so bit offsets are 0 at start and 7 at end
*/
pub fn fmmu_config(entry: ConfigFmmu, offset: u32) -> (r: FmmuEntry)
    requires
        entry.logical + offset <= u32::MAX,
        entry.physical + entry.length < SLAVE_PHYSICAL_MAPPABLE_END,
    ensures
        r.logical_start_byte == entry.logical + offset,
        r.logical_len_byte == entry.length,
        r.logical_start_bit == 0,
        r.logical_end_bit == 7,
        r.physical_start_byte == entry.physical,
        r.physical_start_bit == 0,
        r.read == (entry.direction == SyncDirection::Read),
        r.write == (entry.direction == SyncDirection::Write),
        r.enable,
        r.wf(),
        r.reserved0 == 0 && r.reserved1 == 0 && r.reserved2 == 0 && r.reserved3 == 0 && r.reserved4 == 0 && r.reserved5 == 0,
        r == fmmu_entry(entry, offset),
{
    FmmuEntry {
        logical_start_byte: entry.logical + offset,
        logical_len_byte: entry.length,
        logical_start_bit: 0,
        reserved0: 0,
        logical_end_bit: 7,
        reserved1: 0,
        physical_start_byte: entry.physical,
        physical_start_bit: 0,
        reserved2: 0,
        read: entry.direction == SyncDirection::Read,
        write: entry.direction == SyncDirection::Write,
        reserved3: 0,
        enable: true,
        reserved4: 0,
        reserved5: 0,
    }
}

/// byte size of the data of a sync channel: the sum of the byte sizes (bit sizes divided by 8) of its sdos
pub open spec fn channel_size(bitsizes: Seq<usize>) -> int
    decreases bitsizes.len(),
{
    if bitsizes.len() == 0 {
        0
    } else {
        channel_size(bitsizes.drop_last()) + (bitsizes.last() / 8) as u16
    }
}

/// the data size of a prefix of the sdos of a channel is at most the data size of a longer prefix
proof fn lemma_channel_size_prefix(bitsizes: Seq<usize>, i: int, j: int)
    requires
        0 <= i <= j <= bitsizes.len(),
    ensures
        channel_size(bitsizes.subrange(0, i)) <= channel_size(bitsizes.subrange(0, j)),
    decreases j - i,
{
    if i < j {
        lemma_channel_size_prefix(bitsizes, i, j - 1);
        assert(bitsizes.subrange(0, j).drop_last() =~= bitsizes.subrange(0, j - 1));
    }
}

/// byte size of the data of a sync channel, from the bit sizes of the sdos of its pdos
pub fn channel_data_size(bitsizes: &[usize]) -> (r: u16)
    requires
        channel_size(bitsizes@) <= u16::MAX,
    ensures
        r == channel_size(bitsizes@),
{
    let mut size: u16 = 0;
    let mut i: usize = 0;
    while i < bitsizes.len()
        invariant
            i <= bitsizes@.len(),
            size == channel_size(bitsizes@.subrange(0, i as int)),
            channel_size(bitsizes@) <= u16::MAX,
        decreases bitsizes@.len() - i,
    {
        proof {
            assert(bitsizes@.subrange(0, i + 1).drop_last() =~= bitsizes@.subrange(0, i as int));
            assert(bitsizes@.subrange(0, bitsizes@.len() as int) =~= bitsizes@);
            lemma_channel_size_prefix(bitsizes@, i + 1, bitsizes@.len() as int);
        }
        size = size + (bitsizes[i] / 8) as u16;
        i = i + 1;
    }
    proof {
        assert(bitsizes@.subrange(0, bitsizes@.len() as int) =~= bitsizes@);
    }
    size
}

/// the value of an FMMU entry mapping the given slave memory to the logical memory of a group starting at `offset`
pub open spec fn fmmu_entry(entry: ConfigFmmu, offset: u32) -> FmmuEntry {
    FmmuEntry {
        logical_start_byte: (entry.logical + offset) as u32,
        logical_len_byte: entry.length,
        logical_start_bit: 0,
        reserved0: 0,
        logical_end_bit: 7,
        reserved1: 0,
        physical_start_byte: entry.physical,
        physical_start_bit: 0,
        reserved2: 0,
        read: entry.direction == SyncDirection::Read,
        write: entry.direction == SyncDirection::Write,
        reserved3: 0,
        enable: true,
        reserved4: 0,
        reserved5: 0,
    }
}

/// the value of a sync manager channel exchanging buffered data mapped to the logical memory: buffered mode, the
/// given direction, the DL-user event and, for the channels written by the master, the watchdog
pub open spec fn channel_entry(start: u16, size: u16, direction: SyncDirection, enabled: bool) -> SyncManagerChannel {
    SyncManagerChannel {
        address: start,
        length: size,
        control: (sync_mode_code(SyncMode::Buffered) + 4 * sync_direction_code(direction) + 32
            + if direction == SyncDirection::Write { 64int } else { 0 }) as u8,
        status: 0,
        activate: if enabled { 1 } else { 0 },
        pdi: 0,
    }
}

/// one exchange with a slave to configure its mapping
#[derive(Copy, Clone, Debug, PartialEq, Eq, Structural)]
pub enum ConfigureStep {
    /// read the subitem `sub` of the sdo `index` (an entry of a fixed pdo) and check that it holds `entry`
    CheckEntry { index: u16, sub: u8, entry: PdoEntry },
    /// write in the subitem 0 of the sdo `index` the number of entries of a pdo or of a sync channel
    WriteCount { index: u16, count: u8 },
    /// write `entry` in the subitem `sub` of the sdo `index` of a pdo
    WriteEntry { index: u16, sub: u8, entry: PdoEntry },
    /// assign the pdo `pdo` in the subitem `sub` of the sdo `index` of a sync channel
    WriteAssignment { index: u16, sub: u8, pdo: u16 },
    /// write the sync manager channel register at `address` of the physical memory
    SetChannel { address: u16, config: SyncManagerChannel },
    /// write the FMMU register at `address` of the physical memory
    SetFmmu { address: u16, config: FmmuEntry },
}

/// the pdo entry mapping an sdo
pub open spec fn pdo_entry_of(sdo: Sdo) -> PdoEntry {
    PdoEntry {
        bitsize: sdo.field.len as u8,
        sub: match sdo.sub {
            SdoPart::Complete => 0,
            SdoPart::Sub(i) => i,
        },
        index: sdo.index,
    }
}

/// the exchanges configuring a pdo: the entries of a fixed pdo are checked; an other pdo is emptied, then its entries
/// are written, then its length
pub open spec fn pdo_steps(pdo: ConfigPdo) -> Seq<ConfigureStep> {
    let sdos = pdo.sdos@;
    let index = pdo.config.index;
    if pdo.config.fixed {
        Seq::new(sdos.len(), |i: int| ConfigureStep::CheckEntry { index, sub: (i + 1) as u8, entry: pdo_entry_of(sdos[i]) })
    } else {
        seq![ConfigureStep::WriteCount { index, count: 0 }]
            + Seq::new(sdos.len(), |i: int| ConfigureStep::WriteEntry { index, sub: (i + 1) as u8, entry: pdo_entry_of(sdos[i]) })
            + seq![ConfigureStep::WriteCount { index, count: sdos.len() as u8 }]
    }
}

/// the exchanges configuring the pdos, one after the other
pub open spec fn pdos_steps(pdos: Seq<ConfigPdo>) -> Seq<ConfigureStep>
    decreases pdos.len(),
{
    if pdos.len() == 0 {
        Seq::empty()
    } else {
        pdos_steps(pdos.drop_last()) + pdo_steps(pdos.last())
    }
}

/// every exchange configuring one of the pdos is among the exchanges configuring them all
proof fn lemma_pdos_steps_contains(pdos: Seq<ConfigPdo>, k: int, j: int)
    requires
        0 <= k < pdos.len(),
        0 <= j < pdo_steps(pdos[k]).len(),
    ensures
        pdos_steps(pdos).contains(pdo_steps(pdos[k])[j]),
    decreases pdos.len(),
{
    let before = pdos_steps(pdos.drop_last());
    if k == pdos.len() - 1 {
        assert(pdos_steps(pdos)[before.len() + j] == pdo_steps(pdos[k])[j]);
    } else {
        assert(pdos.drop_last()[k] == pdos[k]);
        lemma_pdos_steps_contains(pdos.drop_last(), k, j);
        let w = choose|w: int| 0 <= w < before.len() && before[w] == pdo_steps(pdos[k])[j];
        assert(pdos_steps(pdos)[w] == before[w]);
    }
}

/**
    configuring a slave maps each sdo of each pdo at the subitem following its position: for the `i`-th sdo of a pdo,
    the configuration checks (for a fixed pdo) or writes (otherwise) subitem `i + 1` of the pdo with the entry of that
    sdo, as the pdo's subitem `k` holds its `k - 1`-th entry (ETG.1000.6 5.6.7.4.7)
*/
pub proof fn law_configure_steps_map_entries(config: ConfigSlave, offset: u32, k: int, i: int)
    requires
        configurable(config, offset),
        0 <= k < config.pdos@.len(),
        0 <= i < config.pdos@[k].sdos@.len(),
    ensures
        ({
            let pdo = config.pdos@[k];
            let steps = pdos_steps(config.pdos@) + channels_steps(config.channels@, config.pdos@) + fmmu_steps(config.fmmu@, offset);
            let entry = pdo_entry_of(pdo.sdos@[i]);
            &&& 1 <= i + 1 <= 255
            &&& pdo.config.fixed ==> steps.contains(ConfigureStep::CheckEntry { index: pdo.config.index, sub: (i + 1) as u8, entry })
            &&& !pdo.config.fixed ==> steps.contains(ConfigureStep::WriteEntry { index: pdo.config.index, sub: (i + 1) as u8, entry })
        }),
{
    let pdo = config.pdos@[k];
    let pdos = config.pdos@;
    let steps = pdos_steps(config.pdos@) + channels_steps(config.channels@, config.pdos@) + fmmu_steps(config.fmmu@, offset);
    let entry = pdo_entry_of(pdo.sdos@[i]);
    assert(pdo_configurable(pdo));
    let j = if pdo.config.fixed { i } else { i + 1 };
    if pdo.config.fixed {
        assert(pdo_steps(pdo)[j] == ConfigureStep::CheckEntry { index: pdo.config.index, sub: (i + 1) as u8, entry });
    } else {
        assert(pdo_steps(pdo)[j] == ConfigureStep::WriteEntry { index: pdo.config.index, sub: (i + 1) as u8, entry });
    }
    assert(0 <= j < pdo_steps(pdo).len());
    lemma_pdos_steps_contains(pdos, k, j);
    let w = choose|w: int| 0 <= w < pdos_steps(pdos).len() && pdos_steps(pdos)[w] == pdo_steps(pdos[k])[j];
    assert(steps[w] == pdo_steps(pdo)[j]);
}

/// every exchange configuring one of the sync channels is among the exchanges configuring them all
proof fn lemma_channels_steps_contains(channels: Seq<ConfigChannel>, pdos: Seq<ConfigPdo>, c: int, j: int)
    requires
        0 <= c < channels.len(),
        0 <= j < channel_steps(channels[c], pdos).len(),
    ensures
        channels_steps(channels, pdos).contains(channel_steps(channels[c], pdos)[j]),
    decreases channels.len(),
{
    let before = channels_steps(channels.drop_last(), pdos);
    if c == channels.len() - 1 {
        assert(channels_steps(channels, pdos)[before.len() + j] == channel_steps(channels[c], pdos)[j]);
    } else {
        assert(channels.drop_last()[c] == channels[c]);
        lemma_channels_steps_contains(channels.drop_last(), pdos, c, j);
        let w = choose|w: int| 0 <= w < before.len() && before[w] == channel_steps(channels[c], pdos)[j];
        assert(channels_steps(channels, pdos)[w] == before[w]);
    }
}

/**
    configuring a slave assigns each pdo of a sync channel at the subitem following its position, and writes the
    number of assigned pdos in the subitem 0 of the channel; a pdo that is not fixed gets the number of its entries
    written in its subitem 0
*/
pub proof fn law_configure_steps_counts_and_assignments(config: ConfigSlave, offset: u32, c: int, j: int, k: int)
    requires
        configurable(config, offset),
        0 <= c < config.channels@.len(),
        0 <= k < config.pdos@.len(),
    ensures
        ({
            let channel = config.channels@[c];
            let pdo = config.pdos@[k];
            let steps = pdos_steps(config.pdos@) + channels_steps(config.channels@, config.pdos@) + fmmu_steps(config.fmmu@, offset);
            &&& 0 <= j < channel.pdos@.len() ==> steps.contains(
                ConfigureStep::WriteAssignment { index: channel.config.index, sub: (j + 1) as u8, pdo: channel.pdos@[j] })
            &&& steps.contains(ConfigureStep::WriteCount { index: channel.config.index, count: channel.pdos@.len() as u8 })
            &&& !pdo.config.fixed ==> steps.contains(ConfigureStep::WriteCount { index: pdo.config.index, count: pdo.sdos@.len() as u8 })
        }),
{
    let channel = config.channels@[c];
    let pdo = config.pdos@[k];
    let pdos = config.pdos@;
    let channels = config.channels@;
    let steps = pdos_steps(pdos) + channels_steps(channels, pdos) + fmmu_steps(config.fmmu@, offset);
    let n = channel.pdos@.len() as int;
    let cs = channel_steps(channel, pdos);
    assert(cs[n + 1] == ConfigureStep::WriteCount { index: channel.config.index, count: channel.pdos@.len() as u8 });
    lemma_channels_steps_contains(channels, pdos, c, n + 1);
    let w = choose|w: int| 0 <= w < channels_steps(channels, pdos).len() && channels_steps(channels, pdos)[w] == cs[n + 1];
    assert(steps[pdos_steps(pdos).len() + w] == cs[n + 1]);
    if 0 <= j < n {
        assert(cs[j + 1] == ConfigureStep::WriteAssignment { index: channel.config.index, sub: (j + 1) as u8, pdo: channel.pdos@[j] });
        lemma_channels_steps_contains(channels, pdos, c, j + 1);
        let v = choose|v: int| 0 <= v < channels_steps(channels, pdos).len() && channels_steps(channels, pdos)[v] == cs[j + 1];
        assert(steps[pdos_steps(pdos).len() + v] == cs[j + 1]);
    }
    if !pdo.config.fixed {
        let m = pdo.sdos@.len() as int;
        assert(pdo_steps(pdo)[m + 1] == ConfigureStep::WriteCount { index: pdo.config.index, count: pdo.sdos@.len() as u8 });
        lemma_pdos_steps_contains(pdos, k, m + 1);
        let u = choose|u: int| 0 <= u < pdos_steps(pdos).len() && pdos_steps(pdos)[u] == pdo_steps(pdos[k])[m + 1];
        assert(steps[u] == pdo_steps(pdo)[m + 1]);
    }
}

/// byte size of the data of a pdo: the sum of the byte sizes (bit sizes divided by 8) of its sdos
pub open spec fn sdos_size(sdos: Seq<Sdo>) -> int
    decreases sdos.len(),
{
    if sdos.len() == 0 {
        0
    } else {
        sdos_size(sdos.drop_last()) + (sdos.last().field.len / 8) as u16
    }
}

/// position of the pdo of the given index in a configuration
pub open spec fn pdo_slot(pdos: Seq<ConfigPdo>, index: u16) -> int {
    choose|k: int| 0 <= k < pdos.len() && pdos[k].config.index == index
}

/// a pdo of the given index is configured
pub open spec fn pdo_configured(pdos: Seq<ConfigPdo>, index: u16) -> bool {
    exists|k: int| 0 <= k < pdos.len() && pdos[k].config.index == index
}

/// every pdo assigned is configured
pub open spec fn pdos_known(pdos: Seq<ConfigPdo>, assigned: Seq<u16>) -> bool {
    forall|j: int| 0 <= j < assigned.len() ==> pdo_configured(pdos, #[trigger] assigned[j])
}

/// byte size of the data of a sync channel: the sum of the data sizes of its assigned pdos
pub open spec fn assigned_size(pdos: Seq<ConfigPdo>, assigned: Seq<u16>) -> int
    decreases assigned.len(),
{
    if assigned.len() == 0 {
        0
    } else {
        assigned_size(pdos, assigned.drop_last()) + sdos_size(pdos[pdo_slot(pdos, assigned.last())].sdos@)
    }
}

/// address of the register of a sync channel in the physical memory
pub open spec fn channel_register(index: u16) -> u16 {
    (0x0800 + (index - FIRST_SYNC_CHANNEL) * SYNC_MANAGER_CHANNEL_SIZE) as u16
}

/// the exchanges configuring a sync channel: it is emptied, then its pdos are assigned, then its length is written,
/// then its register is set, enabled if it has pdos
pub open spec fn channel_steps(channel: ConfigChannel, pdos: Seq<ConfigPdo>) -> Seq<ConfigureStep> {
    let index = channel.config.index;
    let assigned = channel.pdos@;
    seq![ConfigureStep::WriteCount { index, count: 0 }]
        + Seq::new(assigned.len(), |j: int| ConfigureStep::WriteAssignment { index, sub: (j + 1) as u8, pdo: assigned[j] })
        + seq![
            ConfigureStep::WriteCount { index, count: assigned.len() as u8 },
            ConfigureStep::SetChannel {
                address: channel_register(index),
                config: channel_entry(channel.start, assigned_size(pdos, assigned) as u16, channel.config.direction, assigned.len() != 0),
            },
        ]
}

/// the exchanges configuring the sync channels, one after the other
pub open spec fn channels_steps(channels: Seq<ConfigChannel>, pdos: Seq<ConfigPdo>) -> Seq<ConfigureStep>
    decreases channels.len(),
{
    if channels.len() == 0 {
        Seq::empty()
    } else {
        channels_steps(channels.drop_last(), pdos) + channel_steps(channels.last(), pdos)
    }
}

/// the exchanges configuring the FMMUs of a group starting at `offset` in the logical memory
pub open spec fn fmmu_steps(fmmu: Seq<ConfigFmmu>, offset: u32) -> Seq<ConfigureStep> {
    Seq::new(fmmu.len(), |i: int| ConfigureStep::SetFmmu { address: (0x0600 + 0x10 * i) as u16, config: fmmu_entry(fmmu[i], offset) })
}

/// a pdo can be written: its entries fit in its sdo, and the bit size of each fits 8 bits
pub open spec fn pdo_configurable(pdo: ConfigPdo) -> bool {
    &&& pdo.config.capacity <= 254
    &&& pdo.sdos@.len() <= pdo.config.capacity
    &&& forall|i: int| 0 <= i < pdo.sdos@.len() ==> (#[trigger] pdo.sdos@[i]).field.len <= u8::MAX
}

/// a sync channel can be written: it is mappable, its pdos fit in its sdo, are configured and their data size fits 16 bits
pub open spec fn channel_configurable(channel: ConfigChannel, pdos: Seq<ConfigPdo>) -> bool {
    &&& FIRST_SYNC_CHANNEL <= channel.config.index < FIRST_SYNC_CHANNEL + 16
    &&& channel.pdos@.len() <= 255
    &&& pdos_known(pdos, channel.pdos@)
    &&& assigned_size(pdos, channel.pdos@) <= u16::MAX
}

/// an FMMU can be written for a group starting at `offset` in the logical memory: it maps the region of physical
/// memory reserved for mapping, and the logical memory
pub open spec fn fmmu_configurable(entry: ConfigFmmu, offset: u32) -> bool {
    &&& entry.physical + entry.length < SLAVE_PHYSICAL_MAPPABLE_END
    &&& entry.logical + offset <= u32::MAX
}

/// the configuration of a slave can be written for a group starting at `offset` in the logical memory: its pdos and
/// sync channels can, and its FMMUs exist and can
pub open spec fn configurable(config: ConfigSlave, offset: u32) -> bool {
    &&& config.wf()
    &&& forall|k: int| 0 <= k < config.pdos@.len() ==> pdo_configurable(#[trigger] config.pdos@[k])
    &&& forall|c: int| 0 <= c < config.channels@.len() ==> channel_configurable(#[trigger] config.channels@[c], config.pdos@)
    &&& config.fmmu@.len() <= 16
    &&& forall|i: int| 0 <= i < config.fmmu@.len() ==> fmmu_configurable(#[trigger] config.fmmu@[i], offset)
}

/// the data size of a prefix of the sdos of a pdo is at most the data size of a longer prefix
proof fn lemma_sdos_size_prefix(sdos: Seq<Sdo>, i: int, j: int)
    requires
        0 <= i <= j <= sdos.len(),
    ensures
        sdos_size(sdos.subrange(0, i)) <= sdos_size(sdos.subrange(0, j)),
    decreases j - i,
{
    if i < j {
        lemma_sdos_size_prefix(sdos, i, j - 1);
        assert(sdos.subrange(0, j).drop_last() =~= sdos.subrange(0, j - 1));
    }
}

/// the data size of a prefix of the pdos of a channel is at most the data size of a longer prefix
proof fn lemma_assigned_size_prefix(pdos: Seq<ConfigPdo>, assigned: Seq<u16>, i: int, j: int)
    requires
        0 <= i <= j <= assigned.len(),
    ensures
        assigned_size(pdos, assigned.subrange(0, i)) <= assigned_size(pdos, assigned.subrange(0, j)),
    decreases j - i,
{
    if i < j {
        lemma_assigned_size_prefix(pdos, assigned, i, j - 1);
        assert(assigned.subrange(0, j).drop_last() =~= assigned.subrange(0, j - 1));
        lemma_sdos_size_nonnegative(pdos[pdo_slot(pdos, assigned[j - 1])].sdos@);
    }
}

/// the data size of sdos is not negative
proof fn lemma_sdos_size_nonnegative(sdos: Seq<Sdo>)
    ensures
        sdos_size(sdos) >= 0,
    decreases sdos.len(),
{
    if sdos.len() > 0 {
        lemma_sdos_size_nonnegative(sdos.drop_last());
    }
}

/// append the exchanges configuring a pdo
#[verifier::loop_isolation(false)]
fn push_pdo_steps(steps: &mut Vec<ConfigureStep>, pdo: &ConfigPdo)
    requires
        pdo_configurable(*pdo),
    ensures
        final(steps)@ == old(steps)@ + pdo_steps(*pdo),
{
    let index = pdo.config.index;
    let n = pdo.sdos.len();
    let ghost start = steps@;
    if pdo.config.fixed {
        let ghost f = |i: int| ConfigureStep::CheckEntry { index, sub: (i + 1) as u8, entry: pdo_entry_of(pdo.sdos@[i]) };
        let mut i: usize = 0;
        while i < n
            invariant
                n == pdo.sdos@.len(),
                n <= 254,
                i <= n,
                steps@ =~= start + Seq::new(i as nat, f),
                forall|k: int| 0 <= k < pdo.sdos@.len() ==> (#[trigger] pdo.sdos@[k]).field.len <= u8::MAX,
            decreases n - i,
        {
            let sdo = &pdo.sdos[i];
            let entry = PdoEntry { bitsize: sdo.field.len as u8, sub: sdo.sub.unwrap(), index: sdo.index };
            steps.push(ConfigureStep::CheckEntry { index, sub: (i + 1) as u8, entry });
            i = i + 1;
            proof {
                assert(steps@ =~= start + Seq::new(i as nat, f));
            }
        }
        proof {
            assert(pdo_steps(*pdo) =~= Seq::new(n as nat, f));
        }
    } else {
        let ghost f = |i: int| ConfigureStep::WriteEntry { index, sub: (i + 1) as u8, entry: pdo_entry_of(pdo.sdos@[i]) };
        steps.push(ConfigureStep::WriteCount { index, count: 0 });
        let ghost head = steps@;
        let mut i: usize = 0;
        while i < n
            invariant
                n == pdo.sdos@.len(),
                n <= 254,
                i <= n,
                steps@ =~= head + Seq::new(i as nat, f),
                forall|k: int| 0 <= k < pdo.sdos@.len() ==> (#[trigger] pdo.sdos@[k]).field.len <= u8::MAX,
            decreases n - i,
        {
            let sdo = &pdo.sdos[i];
            let entry = PdoEntry { bitsize: sdo.field.len as u8, sub: sdo.sub.unwrap(), index: sdo.index };
            steps.push(ConfigureStep::WriteEntry { index, sub: (i + 1) as u8, entry });
            i = i + 1;
            proof {
                assert(steps@ =~= head + Seq::new(i as nat, f));
            }
        }
        steps.push(ConfigureStep::WriteCount { index, count: n as u8 });
        proof {
            assert(steps@ =~= start + pdo_steps(*pdo));
        }
    }
}

/// byte size of the data of the pdo at position `k` of the configuration, if it fits 16 bits
fn pdo_data_size(pdos: &Vec<ConfigPdo>, k: usize) -> (r: Option<u16>)
    requires
        k < pdos@.len(),
    ensures
        r == if sdos_size(pdos@[k as int].sdos@) <= u16::MAX { Some(sdos_size(pdos@[k as int].sdos@) as u16) } else { None::<u16> },
{
    let sdos = &pdos[k].sdos;
    let ghost s = sdos@;
    let mut size: u16 = 0;
    let mut i: usize = 0;
    while i < sdos.len()
        invariant
            s == sdos@,
            s == pdos@[k as int].sdos@,
            i <= s.len(),
            size == sdos_size(s.subrange(0, i as int)),
        decreases s.len() - i,
    {
        proof {
            assert(s.subrange(0, i + 1).drop_last() =~= s.subrange(0, i as int));
            assert(s.subrange(0, i + 1).last() == s[i as int]);
            assert(s.subrange(0, s.len() as int) =~= s);
            lemma_sdos_size_prefix(s, i + 1, s.len() as int);
        }
        match size.checked_add((sdos[i].field.len / 8) as u16) {
            Some(next) => size = next,
            None => return None,
        }
        i = i + 1;
    }
    proof {
        assert(s.subrange(0, s.len() as int) =~= s);
    }
    Some(size)
}

/// byte size of the data of a sync channel, from the data sizes of its assigned pdos, if it fits 16 bits
fn channel_assigned_size(config: &ConfigSlave, channel: &ConfigChannel) -> (r: Option<u16>)
    requires
        config.wf(),
        pdos_known(config.pdos@, channel.pdos@),
    ensures
        r == if assigned_size(config.pdos@, channel.pdos@) <= u16::MAX {
            Some(assigned_size(config.pdos@, channel.pdos@) as u16)
        } else {
            None::<u16>
        },
{
    let ghost pdos = config.pdos@;
    let ghost a = channel.pdos@;
    let mut size: u16 = 0;
    let mut j: usize = 0;
    while j < channel.pdos.len()
        invariant
            pdos == config.pdos@,
            a == channel.pdos@,
            config.wf(),
            pdos_known(pdos, a),
            j <= a.len(),
            size == assigned_size(pdos, a.subrange(0, j as int)),
        decreases a.len() - j,
    {
        let index = channel.pdos[j];
        let k = config.pdo_position(index);
        proof {
            assert(pdo_configured(pdos, a[j as int]));
            let slot = pdo_slot(pdos, index);
            assert(0 <= slot < pdos.len() && pdos[slot].config.index == index);
            assert(k == slot);
            assert(a.subrange(0, j + 1).drop_last() =~= a.subrange(0, j as int));
            assert(a.subrange(0, a.len() as int) =~= a);
            lemma_assigned_size_prefix(pdos, a, j + 1, a.len() as int);
            lemma_sdos_size_nonnegative(pdos[slot].sdos@);
        }
        match pdo_data_size(&config.pdos, k) {
            Some(pdo_size) => match size.checked_add(pdo_size) {
                Some(next) => size = next,
                None => return None,
            },
            None => return None,
        }
        j = j + 1;
    }
    proof {
        assert(a.subrange(0, a.len() as int) =~= a);
    }
    Some(size)
}

/// the pdos assigned to a sync channel are all configured
fn channel_pdos_known(config: &ConfigSlave, channel: &ConfigChannel) -> (r: bool)
    ensures
        r == pdos_known(config.pdos@, channel.pdos@),
{
    let mut j: usize = 0;
    while j < channel.pdos.len()
        invariant
            j <= channel.pdos@.len(),
            forall|q: int| 0 <= q < j ==> pdo_configured(config.pdos@, #[trigger] channel.pdos@[q]),
        decreases channel.pdos@.len() - j,
    {
        let k = config.pdo_position(channel.pdos[j]);
        if k == config.pdos.len() {
            return false;
        }
        proof {
            assert(config.pdos@[k as int].config.index == channel.pdos@[j as int]);
        }
        j = j + 1;
    }
    true
}

/// the configuration has no two pdos and no two sync channels of the same index
pub fn config_unique(config: &ConfigSlave) -> (r: bool)
    ensures
        r == config.wf(),
{
    let n = config.pdos.len();
    let mut i: usize = 0;
    while i < n
        invariant
            n == config.pdos@.len(),
            i <= n,
            forall|a: int, b: int| 0 <= a < i && a < b < n ==> config.pdos@[a].config.index != config.pdos@[b].config.index,
        decreases n - i,
    {
        let mut j: usize = i + 1;
        while j < n
            invariant
                n == config.pdos@.len(),
                i < n,
                i + 1 <= j <= n,
                forall|a: int, b: int| 0 <= a < i && a < b < n ==> config.pdos@[a].config.index != config.pdos@[b].config.index,
                forall|b: int| i < b < j ==> config.pdos@[i as int].config.index != config.pdos@[b].config.index,
            decreases n - j,
        {
            if config.pdos[i].config.index == config.pdos[j].config.index {
                return false;
            }
            j = j + 1;
        }
        i = i + 1;
    }
    let m = config.channels.len();
    let mut i: usize = 0;
    while i < m
        invariant
            m == config.channels@.len(),
            i <= m,
            forall|a: int, b: int| 0 <= a < b < n ==> config.pdos@[a].config.index != config.pdos@[b].config.index,
            forall|a: int, b: int| 0 <= a < i && a < b < m ==> config.channels@[a].config.index != config.channels@[b].config.index,
        decreases m - i,
    {
        let mut j: usize = i + 1;
        while j < m
            invariant
                m == config.channels@.len(),
                i < m,
                i + 1 <= j <= m,
                forall|a: int, b: int| 0 <= a < i && a < b < m ==> config.channels@[a].config.index != config.channels@[b].config.index,
                forall|b: int| i < b < j ==> config.channels@[i as int].config.index != config.channels@[b].config.index,
            decreases m - j,
        {
            if config.channels[i].config.index == config.channels[j].config.index {
                return false;
            }
            j = j + 1;
        }
        i = i + 1;
    }
    true
}

/// a pdo can be written
fn pdo_is_configurable(pdo: &ConfigPdo) -> (r: bool)
    ensures
        r == pdo_configurable(*pdo),
{
    if pdo.config.capacity > 254 || pdo.sdos.len() > pdo.config.capacity as usize {
        return false;
    }
    let mut i: usize = 0;
    while i < pdo.sdos.len()
        invariant
            i <= pdo.sdos@.len(),
            forall|q: int| 0 <= q < i ==> (#[trigger] pdo.sdos@[q]).field.len <= u8::MAX,
        decreases pdo.sdos@.len() - i,
    {
        if pdo.sdos[i].field.len > 255 {
            return false;
        }
        i = i + 1;
    }
    true
}

/**
    whether the configuration of a slave can be written for a group starting at `offset` in the logical memory
    (see [configure_steps])
*/
pub fn is_configurable(config: &ConfigSlave, offset: u32) -> (r: bool)
    ensures
        r == configurable(*config, offset),
{
    if !config_unique(config) {
        return false;
    }
    let mut k: usize = 0;
    while k < config.pdos.len()
        invariant
            k <= config.pdos@.len(),
            forall|q: int| 0 <= q < k ==> pdo_configurable(#[trigger] config.pdos@[q]),
        decreases config.pdos@.len() - k,
    {
        if !pdo_is_configurable(&config.pdos[k]) {
            return false;
        }
        k = k + 1;
    }
    let mut c: usize = 0;
    while c < config.channels.len()
        invariant
            config.wf(),
            c <= config.channels@.len(),
            forall|q: int| 0 <= q < c ==> channel_configurable(#[trigger] config.channels@[q], config.pdos@),
        decreases config.channels@.len() - c,
    {
        let channel = &config.channels[c];
        if channel.config.index < FIRST_SYNC_CHANNEL || channel.config.index >= FIRST_SYNC_CHANNEL + 16
            || channel.pdos.len() > 255 || !channel_pdos_known(config, channel) {
            return false;
        }
        if channel_assigned_size(config, channel).is_none() {
            return false;
        }
        c = c + 1;
    }
    if config.fmmu.len() > 16 {
        return false;
    }
    let mut i: usize = 0;
    while i < config.fmmu.len()
        invariant
            i <= config.fmmu@.len(),
            forall|q: int| 0 <= q < i ==> fmmu_configurable(#[trigger] config.fmmu@[q], offset),
        decreases config.fmmu@.len() - i,
    {
        let entry = config.fmmu[i];
        if entry.physical as u32 + entry.length as u32 >= SLAVE_PHYSICAL_MAPPABLE_END as u32
            || entry.logical as u64 + offset as u64 > u32::MAX as u64 {
            return false;
        }
        i = i + 1;
    }
    true
}

/// append the exchanges configuring a sync channel
#[verifier::loop_isolation(false)]
fn push_channel_steps(steps: &mut Vec<ConfigureStep>, config: &ConfigSlave, channel: &ConfigChannel)
    requires
        config.wf(),
        channel_configurable(*channel, config.pdos@),
    ensures
        final(steps)@ == old(steps)@ + channel_steps(*channel, config.pdos@),
{
    let index = channel.config.index;
    let n = channel.pdos.len();
    let ghost start = steps@;
    let ghost f = |j: int| ConfigureStep::WriteAssignment { index, sub: (j + 1) as u8, pdo: channel.pdos@[j] };
    steps.push(ConfigureStep::WriteCount { index, count: 0 });
    let ghost head = steps@;
    let mut j: usize = 0;
    while j < n
        invariant
            n == channel.pdos@.len(),
            n <= 255,
            j <= n,
            steps@ =~= head + Seq::new(j as nat, f),
        decreases n - j,
    {
        steps.push(ConfigureStep::WriteAssignment { index, sub: (j + 1) as u8, pdo: channel.pdos[j] });
        j = j + 1;
        proof {
            assert(steps@ =~= head + Seq::new(j as nat, f));
        }
    }
    steps.push(ConfigureStep::WriteCount { index, count: n as u8 });
    let size = match channel_assigned_size(config, channel) {
        Some(size) => size,
        None => 0,
    };
    let register = channel.config.register();
    let value = channel_config(channel.start, size, channel.config.direction, n != 0);
    steps.push(ConfigureStep::SetChannel { address: register.offset as u16, config: value });
    proof {
        assert(steps@ =~= start + channel_steps(*channel, config.pdos@));
    }
}

/**
    the exchanges writing on a slave the configuration of its mapping, for a group starting at `offset` in the
    logical memory, in the order they must be done: the pdos (checked if fixed), then the sync channels, then the FMMUs

    the slave is assumed to be in state PreOperational, and can be switched to SafeOperational after these exchanges
*/
pub fn configure_steps(config: &ConfigSlave, offset: u32) -> (r: Vec<ConfigureStep>)
    requires
        configurable(*config, offset),
    ensures
        r@ == pdos_steps(config.pdos@) + channels_steps(config.channels@, config.pdos@) + fmmu_steps(config.fmmu@, offset),
{
    let mut steps: Vec<ConfigureStep> = Vec::new();
    let ghost pdos = config.pdos@;
    // PDO mapping
    let mut k: usize = 0;
    while k < config.pdos.len()
        invariant
            pdos == config.pdos@,
            configurable(*config, offset),
            k <= pdos.len(),
            steps@ == pdos_steps(pdos.subrange(0, k as int)),
        decreases pdos.len() - k,
    {
        assert(pdo_configurable(pdos[k as int]));
        push_pdo_steps(&mut steps, &config.pdos[k]);
        proof {
            assert(pdos.subrange(0, k + 1).drop_last() =~= pdos.subrange(0, k as int));
        }
        k = k + 1;
    }
    proof {
        assert(pdos.subrange(0, pdos.len() as int) =~= pdos);
    }
    let ghost after_pdos = steps@;
    // sync mapping
    let ghost channels = config.channels@;
    let mut c: usize = 0;
    while c < config.channels.len()
        invariant
            pdos == config.pdos@,
            channels == config.channels@,
            configurable(*config, offset),
            c <= channels.len(),
            steps@ == after_pdos + channels_steps(channels.subrange(0, c as int), pdos),
        decreases channels.len() - c,
    {
        assert(channel_configurable(channels[c as int], pdos));
        push_channel_steps(&mut steps, config, &config.channels[c]);
        proof {
            assert(channels.subrange(0, c + 1).drop_last() =~= channels.subrange(0, c as int));
        }
        c = c + 1;
    }
    proof {
        assert(channels.subrange(0, channels.len() as int) =~= channels);
    }
    let ghost after_channels = steps@;
    // FMMU mapping
    let ghost entries = config.fmmu@;
    let mut i: usize = 0;
    while i < config.fmmu.len()
        invariant
            entries == config.fmmu@,
            configurable(*config, offset),
            i <= entries.len(),
            steps@ =~= after_channels + fmmu_steps(entries.subrange(0, i as int), offset),
        decreases entries.len() - i,
    {
        let entry = config.fmmu[i];
        assert(fmmu_configurable(entries[i as int], offset));
        let register = fmmu().entry(i as u8);
        let value = fmmu_config(entry, offset);
        steps.push(ConfigureStep::SetFmmu { address: register.offset as u16, config: value });
        i = i + 1;
        proof {
            assert(steps@ =~= after_channels + fmmu_steps(entries.subrange(0, i as int), offset));
        }
    }
    proof {
        assert(entries.subrange(0, entries.len() as int) =~= entries);
    }
    steps
}

/// the data extended with zeros up to `end`
pub open spec fn padded(data: Seq<u8>, end: int) -> Seq<u8> {
    if data.len() >= end {
        data
    } else {
        data + Seq::new((end - data.len()) as nat, |i: int| 0u8)
    }
}

/**
    set the initial value of a mapped field in the default content of the logical memory of a group, the content
    being first extended with zeros up to the end of the field

    This is useful when using a PDO that has more fields than the only desired ones, so we can set them a value and forget them.
*/
pub fn set_default<T: PduData>(default: &mut Vec<u8>, field: Field<T>, value: T) -> (r: PackingResult<()>)
    requires
        field.offset + field.len <= usize::MAX,
        field.len * 8 <= usize::MAX,
        T::pack_defined(
            (padded(old(default)@, field.offset + field.len).len() - field.offset) as nat,
            0,
            (field.len * 8) as usize,
            field.endian,
        ),
    ensures
        ({
            let before = padded(old(default)@, field.offset + field.len);
            write_outcome_at(
                value.spec_pack_slice(before.subrange(field.offset as int, before.len() as int), 0, (field.len * 8) as usize, field.endian),
                r,
                before,
                final(default)@,
                field.offset as int,
            )
        }),
{
    extend_default(default, field.offset + field.len);
    field.set(default.as_mut_slice(), value)
}

/// extend the default content of the logical memory of a group with zeros up to `size` bytes: this gives the initial
/// buffers of the group
pub fn extend_default(default: &mut Vec<u8>, size: usize)
    ensures
        final(default)@ == padded(old(default)@, size as int),
{
    let ghost start = default@;
    let ghost n = default@.len();
    while default.len() < size
        invariant
            n == start.len(),
            n <= default@.len(),
            default@.len() <= (if n >= size { n as int } else { size as int }),
            default@ =~= start + Seq::new((default@.len() - n) as nat, |i: int| 0u8),
        decreases size - default@.len(),
    {
        default.push(0);
    }
    proof {
        assert(default@ =~= padded(start, size as int));
    }
}

/// what a mapped sdo addresses: its index, subindex, and the location of the value in the sdo
pub open spec fn sdo_view(sdo: Sdo) -> (u16, SdoPart, usize, usize, Endianness) {
    (sdo.index, sdo.sub, sdo.field.offset, sdo.field.len, sdo.field.endian)
}

/// two pdo configurations configure the same pdo with the same sdos
pub open spec fn same_pdo(a: ConfigPdo, b: ConfigPdo) -> bool {
    a.config == b.config && a.sdos@.map_values(|s: Sdo| sdo_view(s)) == b.sdos@.map_values(|s: Sdo| sdo_view(s))
}

/// two sync channel configurations configure the same channel with the same pdos at the same place
pub open spec fn same_channel(a: ConfigChannel, b: ConfigChannel) -> bool {
    a.config == b.config && a.pdos@ == b.pdos@ && a.start == b.start
}

/// the pdo `pdo` is configured the same in `b`
pub open spec fn pdo_included(pdo: ConfigPdo, b: Seq<ConfigPdo>) -> bool {
    exists|j: int| 0 <= j < b.len() && same_pdo(pdo, b[j])
}

/// every pdo of `a` is configured the same in `b`
pub open spec fn pdos_included(a: Seq<ConfigPdo>, b: Seq<ConfigPdo>) -> bool {
    forall|i: int| 0 <= i < a.len() ==> pdo_included(#[trigger] a[i], b)
}

/// the sync channel `channel` is configured the same in `b`
pub open spec fn channel_included(channel: ConfigChannel, b: Seq<ConfigChannel>) -> bool {
    exists|j: int| 0 <= j < b.len() && same_channel(channel, b[j])
}

/// every sync channel of `a` is configured the same in `b`
pub open spec fn channels_included(a: Seq<ConfigChannel>, b: Seq<ConfigChannel>) -> bool {
    forall|i: int| 0 <= i < a.len() ==> channel_included(#[trigger] a[i], b)
}

/// two slave configurations are the same: the same pdos and sync channels, in any order, and the same FMMUs
pub open spec fn same_config(a: ConfigSlave, b: ConfigSlave) -> bool {
    &&& a.fmmu@ == b.fmmu@
    &&& a.pdos@.len() == b.pdos@.len()
    &&& pdos_included(a.pdos@, b.pdos@)
    &&& a.channels@.len() == b.channels@.len()
    &&& channels_included(a.channels@, b.channels@)
}

/// the sdos of two pdo configurations address the same values
fn same_sdos(a: &Vec<Sdo>, b: &Vec<Sdo>) -> (r: bool)
    ensures
        r == (a@.map_values(|s: Sdo| sdo_view(s)) == b@.map_values(|s: Sdo| sdo_view(s))),
{
    if a.len() != b.len() {
        proof {
            assert(a@.map_values(|s: Sdo| sdo_view(s)).len() != b@.map_values(|s: Sdo| sdo_view(s)).len());
        }
        return false;
    }
    let mut i: usize = 0;
    while i < a.len()
        invariant
            a@.len() == b@.len(),
            i <= a@.len(),
            forall|k: int| 0 <= k < i ==> sdo_view(#[trigger] a@[k]) == sdo_view(b@[k]),
        decreases a@.len() - i,
    {
        let x = &a[i];
        let y = &b[i];
        if x.index != y.index || x.sub != y.sub || x.field.offset != y.field.offset || x.field.len != y.field.len
            || x.field.endian != y.field.endian {
            proof {
                assert(a@.map_values(|s: Sdo| sdo_view(s))[i as int] != b@.map_values(|s: Sdo| sdo_view(s))[i as int]);
            }
            return false;
        }
        i = i + 1;
    }
    proof {
        assert(a@.map_values(|s: Sdo| sdo_view(s)) =~= b@.map_values(|s: Sdo| sdo_view(s)));
    }
    true
}

/// two pdo configurations configure the same pdo with the same sdos
fn pdo_equal(a: &ConfigPdo, b: &ConfigPdo) -> (r: bool)
    ensures
        r == same_pdo(*a, *b),
{
    a.config == b.config && same_sdos(&a.sdos, &b.sdos)
}

/// two sync channel configurations configure the same channel with the same pdos at the same place
fn channel_equal(a: &ConfigChannel, b: &ConfigChannel) -> (r: bool)
    ensures
        r == same_channel(*a, *b),
{
    if a.config != b.config || a.start != b.start || a.pdos.len() != b.pdos.len() {
        return false;
    }
    let mut i: usize = 0;
    while i < a.pdos.len()
        invariant
            a.pdos@.len() == b.pdos@.len(),
            i <= a.pdos@.len(),
            forall|k: int| 0 <= k < i ==> a.pdos@[k] == b.pdos@[k],
        decreases a.pdos@.len() - i,
    {
        if a.pdos[i] != b.pdos[i] {
            return false;
        }
        i = i + 1;
    }
    proof {
        assert(a.pdos@ =~= b.pdos@);
    }
    true
}

impl ConfigSlave {
    /**
        whether two configurations of a slave are the same: the same pdos and sync channels, in any order, and the
        same FMMUs. Two mappings can share a slave only if they configure it the same.
    */
    pub fn same(&self, other: &ConfigSlave) -> (r: bool)
        requires
            self.wf(),
            other.wf(),
        ensures
            r == same_config(*self, *other),
    {
        if self.fmmu.len() != other.fmmu.len() || self.pdos.len() != other.pdos.len()
            || self.channels.len() != other.channels.len() {
            return false;
        }
        let mut i: usize = 0;
        while i < self.fmmu.len()
            invariant
                self.fmmu@.len() == other.fmmu@.len(),
                i <= self.fmmu@.len(),
                forall|k: int| 0 <= k < i ==> self.fmmu@[k] == other.fmmu@[k],
            decreases self.fmmu@.len() - i,
        {
            if self.fmmu[i] != other.fmmu[i] {
                return false;
            }
            i = i + 1;
        }
        proof {
            assert(self.fmmu@ =~= other.fmmu@);
        }
        let mut k: usize = 0;
        while k < self.pdos.len()
            invariant
                self.wf(),
                other.wf(),
                k <= self.pdos@.len(),
                forall|q: int| 0 <= q < k ==> pdo_included(#[trigger] self.pdos@[q], other.pdos@),
            decreases self.pdos@.len() - k,
        {
            let j = other.pdo_position(self.pdos[k].config.index);
            if j == other.pdos.len() || !pdo_equal(&self.pdos[k], &other.pdos[j]) {
                proof {
                    assert forall|q: int| 0 <= q < other.pdos@.len() implies !#[trigger] same_pdo(self.pdos@[k as int], other.pdos@[q]) by {
                        if same_pdo(self.pdos@[k as int], other.pdos@[q]) {
                            assert(other.pdos@[q].config.index == self.pdos@[k as int].config.index);
                        }
                    }
                }
                return false;
            }
            proof {
                assert(same_pdo(self.pdos@[k as int], other.pdos@[j as int]));
            }
            k = k + 1;
        }
        let mut c: usize = 0;
        while c < self.channels.len()
            invariant
                self.wf(),
                other.wf(),
                c <= self.channels@.len(),
                forall|q: int| 0 <= q < c ==> channel_included(#[trigger] self.channels@[q], other.channels@),
            decreases self.channels@.len() - c,
        {
            let j = other.channel_position(self.channels[c].config.index);
            if j == other.channels.len() || !channel_equal(&self.channels[c], &other.channels[j]) {
                proof {
                    assert forall|q: int| 0 <= q < other.channels@.len() implies !#[trigger] same_channel(self.channels@[c as int], other.channels@[q]) by {
                        if same_channel(self.channels@[c as int], other.channels@[q]) {
                            assert(other.channels@[q].config.index == self.channels@[c as int].config.index);
                        }
                    }
                }
                return false;
            }
            proof {
                assert(same_channel(self.channels@[c as int], other.channels@[j as int]));
            }
            c = c + 1;
        }
        true
    }
}

/**
    whether a mapping configuring the slaves `requested` (each with its address) can share the logical memory with
    the configurations `configured` already in use: each slave configured in both is configured the same
*/
pub fn compatible(configured: &[(u16, ConfigSlave)], requested: &[(u16, ConfigSlave)]) -> (r: bool)
    requires
        forall|i: int| 0 <= i < configured@.len() ==> (#[trigger] configured@[i]).1.wf(),
        forall|i: int| 0 <= i < requested@.len() ==> (#[trigger] requested@[i]).1.wf(),
    ensures
        r == forall|i: int, j: int| 0 <= i < requested@.len() && 0 <= j < configured@.len()
            && #[trigger] requested@[i].0 == #[trigger] configured@[j].0 ==> same_config(requested@[i].1, configured@[j].1),
{
    let mut i: usize = 0;
    while i < requested.len()
        invariant
            i <= requested@.len(),
            forall|q: int| 0 <= q < configured@.len() ==> (#[trigger] configured@[q]).1.wf(),
            forall|q: int| 0 <= q < requested@.len() ==> (#[trigger] requested@[q]).1.wf(),
            forall|a: int, b: int| 0 <= a < i && 0 <= b < configured@.len()
                && #[trigger] requested@[a].0 == #[trigger] configured@[b].0 ==> same_config(requested@[a].1, configured@[b].1),
        decreases requested@.len() - i,
    {
        let mut j: usize = 0;
        while j < configured.len()
            invariant
                i < requested@.len(),
                j <= configured@.len(),
                forall|q: int| 0 <= q < configured@.len() ==> (#[trigger] configured@[q]).1.wf(),
                forall|q: int| 0 <= q < requested@.len() ==> (#[trigger] requested@[q]).1.wf(),
                forall|a: int, b: int| 0 <= a < i && 0 <= b < configured@.len()
                    && #[trigger] requested@[a].0 == #[trigger] configured@[b].0 ==> same_config(requested@[a].1, configured@[b].1),
                forall|b: int| 0 <= b < j && requested@[i as int].0 == #[trigger] configured@[b].0
                    ==> same_config(requested@[i as int].1, configured@[b].1),
            decreases configured@.len() - j,
        {
            if requested[i].0 == configured[j].0 {
                assert(requested@[i as int].1.wf() && configured@[j as int].1.wf());
                if !requested[i].1.same(&configured[j].1) {
                    return false;
                }
            }
            j = j + 1;
        }
        i = i + 1;
    }
    true
}

} // verus!
