use etherage::data::{PduData, Field};
use etherage::registers::{
    AlState, AlMixedState, AlStatus, AlControlRequest, SyncDirection, SyncManagerChannel, FmmuEntry, SiiControl,
    al_status, al_control, sii_control, fmmu, sync_manager_interface,
};
use etherage::mapping::{
    FreeSlots, LogicalSlot, MappingSlave, ConfigFmmu, channel_config, fmmu_config, channel_data_size,
    configure_steps, is_configurable, config_unique, ConfigureStep, set_default, extend_default, compatible,
    SLAVE_PHYSICAL_MAPPABLE_START,
};
use etherage::sdo::{Sdo, SdoPart, SdoList, SdoSerie, Pdo, PdoEntry, sync_manager, Synchronization};
use etherage::sii::{
    CategoryHeader, CategoryType, CategoryGeneral, CategorySyncManager, SyncManagerUsage, PhysicalPort,
    SiiControlAddress, SiiControlAddressData, eeprom_device_vendor, eeprom_mailbox_protocols,
};

#[test]
fn test_al_registers() {
    assert_eq!(al_status().offset, 0x130);
    assert_eq!(al_control().offset, 0x120);
    assert_eq!(sii_control().offset, 0x502);
    let status = AlStatus::unpack(&[0x18]).unwrap();
    assert_eq!(status.state, AlState::Operational.code());
    assert!(status.changed);
    let request = AlControlRequest { state: AlState::PreOperational.code(), ack: true, request_id: false, reserved: 0 };
    let mut buf = [0u8; 1];
    request.pack(&mut buf).unwrap();
    assert_eq!(buf, [0x12]);
    // a mixed state of a single state gives it back
    let mixed = AlMixedState::from_state(AlState::SafeOperational);
    assert_eq!(mixed.to_state().unwrap(), AlState::SafeOperational);
    let both = AlMixedState::unpack(&[0x05]).unwrap();
    assert!(both.to_state().is_err());
    assert_eq!(AlState::from_code(3), Some(AlState::Bootstrap));
    assert_eq!(AlState::from_code(5), None);
}

#[test]
fn test_sii_control_register() {
    let control = SiiControl::unpack(&[0x81, 0x81]).unwrap();
    assert!(control.write_access);
    assert!(control.address_unit);
    assert!(control.read_operation);
    assert!(control.busy);
    assert!(!control.command_error);
    let mut buf = [0u8; 2];
    control.pack(&mut buf).unwrap();
    assert_eq!(buf, [0x81, 0x81]);
}

#[test]
fn test_sync_manager_channel() {
    let config = channel_config(0x1000, 8, SyncDirection::Write, true);
    let mut buf = [0u8; 8];
    config.pack(&mut buf).unwrap();
    // buffered mode, written by the master, dls user event and watchdog, enabled
    assert_eq!(buf, [0x00, 0x10, 0x08, 0x00, 0x64, 0x00, 0x01, 0x00]);
    assert_eq!(SyncManagerChannel::unpack(&buf).unwrap(), config);
    let config = channel_config(0x1100, 4, SyncDirection::Read, false);
    config.pack(&mut buf).unwrap();
    assert_eq!(buf, [0x00, 0x11, 0x04, 0x00, 0x20, 0x00, 0x00, 0x00]);
    assert_eq!(sync_manager_interface().channel(2).offset, 0x810);
    assert_eq!(sync_manager_interface().mappable(0).offset, 0x810);
    assert_eq!(fmmu().entry(1).offset, 0x610);
}

#[test]
fn test_fmmu_config() {
    let entry = fmmu_config(ConfigFmmu { direction: SyncDirection::Read, length: 4, physical: 0x1000, logical: 0x10 }, 0x100);
    let mut buf = [0u8; 16];
    entry.pack(&mut buf).unwrap();
    assert_eq!(buf, [0x10, 0x01, 0, 0, 4, 0, 0, 7, 0x00, 0x10, 0, 0x01, 0x01, 0, 0, 0]);
    assert_eq!(FmmuEntry::unpack(&buf).unwrap(), entry);
    assert!(matches!(FmmuEntry::unpack(&buf[.. 10]), Err(_)));
}

#[test]
fn test_free_slots() {
    let mut slots = FreeSlots::new();
    assert_eq!(slots.free(), u32::MAX);
    assert_eq!(slots.allocated(), 0);
    let a = slots.reserve(16).unwrap();
    assert_eq!(a, LogicalSlot { size: u32::MAX, position: 0 });
    assert_eq!(slots.allocated(), 16);
    let b = slots.reserve(8).unwrap();
    assert_eq!(b.position, 16);
    assert_eq!(slots.free(), u32::MAX - 24);
    // the remainder of the reserved slot stays free, right after the reserved bytes
    assert!(slots.contains(LogicalSlot { size: u32::MAX - 24, position: 24 }));
    slots.remove(LogicalSlot { size: u32::MAX - 24, position: 24 });
    assert_eq!(slots.free(), 0);
    assert_eq!(slots.reserve(1), None);
}

#[test]
fn reserved_groups_stay_apart() {
    let mut slots = FreeSlots::new();
    // groups of 16, 8 and 100 bytes, each placed where the previous one ended
    let sizes = [16u32, 8, 100];
    let mut groups: Vec<(u32, u32)> = Vec::new();
    for size in sizes {
        let slot = slots.reserve(size).unwrap();
        groups.push((slot.position, slot.position + size));
    }
    assert_eq!(groups, vec![(0, 16), (16, 24), (24, 124)]);
    // no group shares a byte with another group, nor with what is left free
    for (i, a) in groups.iter().enumerate() {
        for (j, b) in groups.iter().enumerate() {
            if i != j {
                assert!(a.1 <= b.0 || b.1 <= a.0);
            }
        }
        for free in slots.slots.iter() {
            assert!(a.1 <= free.position || free.position + free.size <= a.0);
        }
    }
    assert_eq!(slots.slots, vec![LogicalSlot { size: u32::MAX - 124, position: 124 }]);
}

#[test]
fn test_mapping_slave() {
    let mut slave = MappingSlave::new();
    let mut offset: u32 = 0x20;
    let channel = slave.channel(sync_manager().logical_write());
    assert_eq!(channel, 0);
    assert_eq!(slave.config.channels[0].start, SLAVE_PHYSICAL_MAPPABLE_START);
    let pdo = slave.push_pdo(channel, Pdo::new(0x1600, false));
    assert_eq!(pdo, 0);
    assert_eq!(slave.config.channels[0].pdos, vec![0x1600]);
    let control = slave.push_sdo(&mut offset, channel, pdo, Sdo::<u16>::complete(0x6040));
    assert_eq!((control.offset, control.len), (0x20, 2));
    assert_eq!(offset, 0x22);
    // contiguous data in the same direction extends the same FMMU
    let target = slave.push_sdo(&mut offset, channel, pdo, Sdo::<i32>::complete(0x607a));
    assert_eq!((target.offset, target.len), (0x22, 4));
    assert_eq!(slave.config.pdos[0].sdos.len(), 2);
    assert_eq!(slave.config.pdos[0].sdos[1].index, 0x607a);
    assert_eq!(slave.config.fmmu.len(), 1);
    assert_eq!(slave.config.fmmu[0], ConfigFmmu { direction: SyncDirection::Write, length: 6, physical: SLAVE_PHYSICAL_MAPPABLE_START, logical: 0x20 });
    // the sync channel reserves 3 times its size
    slave.finish();
    assert_eq!(slave.buffer, SLAVE_PHYSICAL_MAPPABLE_START + 18);
    assert_eq!(slave.additional, 0);
    // an other direction needs an other FMMU
    let read = slave.channel(sync_manager().logical_read());
    assert_eq!(read, 1);
    assert_eq!(slave.config.channels[1].start, SLAVE_PHYSICAL_MAPPABLE_START + 18);
    let status_pdo = slave.push_pdo(read, Pdo::new(0x1a00, false));
    slave.push_sdo(&mut offset, read, status_pdo, Sdo::<u8>::complete(0x6061));
    assert_eq!(slave.config.fmmu.len(), 2);
    assert_eq!(slave.config.fmmu[1].logical, 0x26);
    assert_eq!(slave.config.fmmu[1].direction, SyncDirection::Read);
    // configuring a channel again replaces it
    assert_eq!(slave.channel(sync_manager().logical_write()), 0);
    assert_eq!(slave.config.channels.len(), 2);
    assert!(slave.config.channels[0].pdos.is_empty());
    assert_eq!(channel_data_size(&[16, 32, 8]), 7);
    // a pdo takes as many sdos as its capacity
    let mut slave = MappingSlave::new();
    let mut offset: u32 = 0;
    let channel = slave.channel(sync_manager().logical_write());
    let pdo = slave.push_pdo(channel, Pdo::with_capacity(0x1600, false, 2));
    slave.push_sdo(&mut offset, channel, pdo, Sdo::<u8>::complete(0x6060));
    slave.push_sdo(&mut offset, channel, pdo, Sdo::<u8>::complete(0x6061));
    assert_eq!(slave.config.pdos[0].sdos.len(), 2);
}

#[test]
fn test_configure_steps() {
    let mut slave = MappingSlave::new();
    let mut offset: u32 = 0;
    let write = slave.channel(sync_manager().logical_write());
    let command = slave.push_pdo(write, Pdo::new(0x1600, false));
    slave.push_sdo(&mut offset, write, command, Sdo::<u16>::complete(0x6040));
    slave.push_sdo(&mut offset, write, command, Sdo::<i32>::complete(0x607a));
    let read = slave.channel(sync_manager().logical_read());
    let status = slave.push_pdo(read, Pdo::new(0x1a00, true));
    slave.push_sdo(&mut offset, read, status, Sdo::<u16>::complete(0x6041));
    assert!(is_configurable(&slave.config, 0x100));
    // the group must fit the logical memory
    assert!(!is_configurable(&slave.config, u32::MAX));
    let steps = configure_steps(&slave.config, 0x100);
    assert_eq!(steps.len(), 5 + 4 + 4 + 2);
    // the writable pdo is emptied, filled, then given its length
    assert_eq!(steps[0], ConfigureStep::WriteCount { index: 0x1600, count: 0 });
    assert_eq!(steps[1], ConfigureStep::WriteEntry { index: 0x1600, sub: 1, entry: PdoEntry { bitsize: 16, sub: 0, index: 0x6040 } });
    assert_eq!(steps[2], ConfigureStep::WriteEntry { index: 0x1600, sub: 2, entry: PdoEntry { bitsize: 32, sub: 0, index: 0x607a } });
    assert_eq!(steps[3], ConfigureStep::WriteCount { index: 0x1600, count: 2 });
    // the fixed pdo is only checked
    assert_eq!(steps[4], ConfigureStep::CheckEntry { index: 0x1a00, sub: 1, entry: PdoEntry { bitsize: 16, sub: 0, index: 0x6041 } });
    // the sync channels
    assert_eq!(steps[5], ConfigureStep::WriteCount { index: 0x1c12, count: 0 });
    assert_eq!(steps[6], ConfigureStep::WriteAssignment { index: 0x1c12, sub: 1, pdo: 0x1600 });
    assert_eq!(steps[7], ConfigureStep::WriteCount { index: 0x1c12, count: 1 });
    assert_eq!(steps[8], ConfigureStep::SetChannel { address: 0x810, config: SyncManagerChannel {
        address: 0x1000, length: 6, control: 100, status: 0, activate: 1, pdi: 0 } });
    assert_eq!(steps[12], ConfigureStep::SetChannel { address: 0x818, config: SyncManagerChannel {
        address: 0x1012, length: 2, control: 32, status: 0, activate: 1, pdi: 0 } });
    // the FMMUs, placed at the group's offset
    match steps[13] {
        ConfigureStep::SetFmmu { address, config } => {
            assert_eq!(address, 0x600);
            assert_eq!((config.logical_start_byte, config.logical_len_byte, config.physical_start_byte), (0x100, 6, 0x1000));
            assert!(config.write && !config.read && config.enable);
        },
        _ => panic!("an FMMU is expected"),
    }
    match steps[14] {
        ConfigureStep::SetFmmu { address, config } => {
            assert_eq!(address, 0x610);
            assert_eq!((config.logical_start_byte, config.logical_len_byte, config.physical_start_byte), (0x106, 2, 0x1012));
            assert!(config.read && !config.write);
        },
        _ => panic!("an FMMU is expected"),
    }
    // a channel cannot assign a pdo that is not configured
    slave.config.channels[1].pdos.push(0x1a01);
    assert!(!is_configurable(&slave.config, 0x100));
    slave.config.channels[1].pdos.pop();
    // nor can two pdos share an index
    slave.push_pdo(read, Pdo::new(0x1a01, true));
    let unique = slave.config.clone();
    slave.config.pdos[2].config.index = 0x1a00;
    assert!(!is_configurable(&slave.config, 0x100));
    assert!(!config_unique(&slave.config));
    assert!(config_unique(&unique));
}

fn two_channels(write_first: bool, status_index: u16) -> MappingSlave {
    let mut slave = MappingSlave::new();
    let mut offset: u32 = 0;
    let write = slave.channel(sync_manager().logical_write());
    let read = slave.channel(sync_manager().logical_read());
    let (first, second) = if write_first { (write, read) } else { (read, write) };
    let a = slave.push_pdo(first, Pdo::new(if write_first { 0x1600 } else { 0x1a00 }, false));
    let b = slave.push_pdo(second, Pdo::new(if write_first { 0x1a00 } else { 0x1600 }, false));
    let (command, status) = if write_first { (a, b) } else { (b, a) };
    slave.push_sdo(&mut offset, write, command, Sdo::<u16>::complete(0x6040));
    slave.push_sdo(&mut offset, read, status, Sdo::<u16>::complete(status_index));
    slave
}

#[test]
fn test_mapping_compatible() {
    let one = two_channels(true, 0x6041);
    let other = two_channels(false, 0x6041);
    // the same pdos and channels, configured in an other order
    assert!(one.config.same(&other.config));
    assert!(compatible(&[(3, one.config)], &[(3, other.config)]));
    // an other sdo in a pdo
    let one = two_channels(true, 0x6041);
    let changed = two_channels(true, 0x6064);
    assert!(!one.config.same(&changed.config));
    assert!(!compatible(&[(3, one.config)], &[(3, changed.config)]));
    // different slaves do not conflict
    let one = two_channels(true, 0x6041);
    let changed = two_channels(true, 0x6064);
    assert!(compatible(&[(3, one.config)], &[(4, changed.config)]));
}

#[test]
fn test_sdo_series() {
    let serie = SdoSerie::<u16>::new(0x1a00, 4);
    assert_eq!(serie.slot(2), 0x1a02);
    let copy = serie;
    assert_eq!((copy.index, copy.len), (0x1a00, 4));
    let list = SdoList::<u16>::from(0x1c12);
    assert_eq!((list.index, list.capacity), (0x1c12, 254));
    let copy = list;
    assert_eq!(copy.len().index, 0x1c12);
}

#[test]
fn test_mapping_default() {
    // the default content grows with zeros up to the field
    let mut default = Vec::new();
    set_default(&mut default, Field::<u16>::new(2, 2), 0x1234).unwrap();
    assert_eq!(default, vec![0, 0, 0x34, 0x12]);
    // a field inside the content only overwrites its bytes
    let mut default = vec![1, 2, 3, 4, 5];
    set_default(&mut default, Field::<u16>::new(1, 2), 0xabcd).unwrap();
    assert_eq!(default, vec![1, 0xcd, 0xab, 4, 5]);
    // the group's buffers extend the default content to the group's size
    extend_default(&mut default, 8);
    assert_eq!(default, vec![1, 0xcd, 0xab, 4, 5, 0, 0, 0]);
    extend_default(&mut default, 3);
    assert_eq!(default.len(), 8);
}

#[test]
fn test_sdo_addresses() {
    let sdo = Sdo::<u16>::sub(0x6040, 0, 0);
    assert_eq!(sdo.index, 0x6040);
    assert_eq!(sdo.sub, SdoPart::Sub(0));
    assert_eq!(sdo.field.len, 16);
    assert_eq!(Sdo::<u32>::complete(0x1c32).sub.is_complete(), true);
    assert_eq!(SdoPart::Sub(3).unwrap(), 3);
    assert_eq!(SdoPart::Complete.unwrap(), 0);
    let list = SdoList::<u16>::with_capacity(0x1c12, 4);
    assert_eq!(list.len().sub, SdoPart::Sub(0));
    assert_eq!(list.item(2).sub, SdoPart::Sub(3));
    let pdo = Pdo::with_capacity(0x1600, false, 8);
    assert_eq!(pdo.item(1).sub, SdoPart::Sub(2));
    let entry = PdoEntry { bitsize: 16, sub: 0, index: 0x6040 };
    let mut buf = [0u8; 4];
    entry.pack(&mut buf).unwrap();
    assert_eq!(buf, [16, 0, 0x40, 0x60]);
}

#[test]
fn test_sync_manager_sdos() {
    let manager = sync_manager();
    let write = manager.logical_write();
    assert_eq!(write.index, 0x1c12);
    assert_eq!(write.direction, SyncDirection::Write);
    let read = manager.logical_read();
    assert_eq!(read.index, 0x1c13);
    assert_eq!(read.direction, SyncDirection::Read);
    assert_eq!(write.slot(1).sub, SdoPart::Sub(2));
    assert_eq!(write.register().offset, 0x810);
    assert_eq!(read.register().offset, 0x818);
    assert_eq!(write.sync().index, 0x1c32);
    let sync = Synchronization { index: 0x1c32 };
    assert_eq!(sync.cycle().sub, SdoPart::Sub(2));
}

#[test]
fn test_sii_categories() {
    let header = CategoryHeader::unpack(&[30, 0, 8, 0]).unwrap();
    assert_eq!(header.ty(), CategoryType::General);
    assert_eq!(header.size, 8);
    assert_eq!(CategoryHeader::unpack(&[0xff, 0xff, 0, 0]).unwrap().ty(), CategoryType::End);
    // unknown category codes are unsupported categories
    assert_eq!(CategoryHeader::unpack(&[1, 2, 0, 0]).unwrap().ty(), CategoryType::Unsupported);

    let bytes = [1, 2, 3, 4, 0, 0x0d, 0x01, 0x00, 0, 0, 0, 0x01, 0x9c, 0xff, 5, 0, 0x31, 0x00, 0x00, 0x10];
    let general = CategoryGeneral::unpack(&bytes).unwrap();
    assert_eq!(general.name, 4);
    assert!(general.coe.sdo);
    assert!(!general.coe.sdo_info);
    assert!(general.coe.pdo_assign);
    assert!(general.coe.pdo_config);
    assert!(general.foe.enable);
    assert!(general.flags.enable_safeop);
    assert_eq!(general.ebus_current, -100);
    assert_eq!(general.group2, 5);
    assert_eq!(general.ports.port(0), PhysicalPort::Mii);
    assert_eq!(general.ports.port(1), PhysicalPort::Ebus);
    assert_eq!(general.ports.port(2), PhysicalPort::Disabled);
    assert_eq!(general.identification_address, 0x1000);
    let mut buf = [0u8; 20];
    general.pack(&mut buf).unwrap();
    assert_eq!(buf, bytes);
    assert!(CategoryGeneral::unpack(&bytes[.. 19]).is_err());

    let manager = CategorySyncManager::unpack(&[0x00, 0x10, 0x80, 0x00, 0x26, 0, 0x01, 0x01]).unwrap();
    assert_eq!(manager.address, 0x1000);
    assert_eq!(manager.length, 0x80);
    assert!(manager.enable().enable);
    assert_eq!(manager.usage(), Some(SyncManagerUsage::MailboxOut));

    assert_eq!(eeprom_device_vendor().offset, 0x10);
    assert_eq!(eeprom_mailbox_protocols().offset, 0x38);
}

#[test]
fn test_sii_registers() {
    let request = SiiControlAddress { control: SiiControl::unpack(&[0x00, 0x01]).unwrap(), address: 0x40 };
    let mut buf = [0u8; 4];
    request.pack(&mut buf).unwrap();
    assert_eq!(buf, [0x00, 0x01, 0x40, 0x00]);
    let request = SiiControlAddressData { control: SiiControl::unpack(&[0x00, 0x02]).unwrap(), address: 0x41, reserved: 0, data: 0x1234 };
    let mut buf = [0u8; 8];
    request.pack(&mut buf).unwrap();
    assert_eq!(buf, [0x00, 0x02, 0x41, 0x00, 0, 0, 0x34, 0x12]);
    assert_eq!(SiiControlAddressData::unpack(&buf).unwrap(), request);
}
