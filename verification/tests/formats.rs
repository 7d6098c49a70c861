use etherage::data::PduData;
use etherage::ethernet::{EthernetHeader, pack_frame, unpack_frame, ETHERCAT_PROTOCOL, MIN_ETHERNET_FRAME, UDP_MAX_FRAME};
use etherage::mailbox::{MailboxType, write_frame, check_mail_start};
use etherage::can::{SdoCommandResponse, check_sdo_response, first_segment_len, SDO_DOWNLOAD_MAX_SIZE};
use etherage::sdo::{
    SyncModes, SyncCycleControl, SynchronizationFull, DeviceType, DeviceError, StatusWord, ControlWord, OperationMode,
    SupportedModes, SynchronizationSetting, Positioning, SyncMode, Synchronization, SdoPart,
};
use etherage::registers::{
    PortsErrorCount, DistributedClock, DcRange, Forwarding, SiiOwner, SiiTransaction, SiiUnit, ports_errors, clock,
    SyncDirection,
};
use etherage::mapping::{MappingSlave, SLAVE_PHYSICAL_MAPPABLE_START};
use etherage::registers::al_status;

#[test]
fn test_ethernet_frame() {
    let header = EthernetHeader::broadcast();
    assert_eq!(header.protocol, ETHERCAT_PROTOCOL);
    let frame = pack_frame(&header, &[1, 2, 3]);
    // short frames are padded to the minimum ethernet frame
    assert_eq!(frame.len(), MIN_ETHERNET_FRAME);
    assert_eq!(&frame[.. 14], &[0xff, 0xff, 0xff, 0xff, 0xff, 0xff, 0xff, 0xff, 0xff, 0xff, 0xff, 0xff, 0x88, 0xa4]);
    assert_eq!(&frame[14 .. 17], &[1, 2, 3]);
    assert!(frame[17 ..].iter().all(|b| *b == 0));
    // the header packed reads back
    let (back, start) = unpack_frame(&frame).unwrap();
    assert!(back.same(&header));
    assert_eq!(start, 14);
    let other = EthernetHeader { dst: [1, 2, 3, 4, 5, 6], src: [0xff; 6], protocol: ETHERCAT_PROTOCOL };
    assert!(!other.same(&header));
    assert!(unpack_frame(&frame[.. 10]).is_none());
    let big = pack_frame(&header, &[7; 100]);
    assert_eq!(big.len(), 114);
    assert_eq!(UDP_MAX_FRAME, 1472);
}

#[test]
fn test_mail_roundtrip() {
    let data = [9, 8, 7, 6, 5];
    let frame = write_frame(MailboxType::Can, 2, 5, &data, 64).unwrap();
    let start = check_mail_start(MailboxType::Can, &frame, 16, 64).unwrap();
    assert_eq!(start.size, data.len());
    assert!(!start.more);
    assert!(start.acknowledge);
    assert_eq!(&frame[6 .. 11], &data);
}

#[test]
fn test_sdo_response_accepted() {
    // a download response about 0x6040:00 is accepted when expecting a download
    let frame = [0x00, 0x30, 0x60, 0x40, 0x60, 0x00, 0, 0, 0, 0];
    let header = check_sdo_response(&frame, SdoCommandResponse::Download, 0x6040, 0).unwrap();
    assert_eq!(header.index, 0x6040);
    assert_eq!(header.command, SdoCommandResponse::Download.code());
    assert_eq!(first_segment_len(3), 3);
    assert_eq!(first_segment_len(100), 100);
    assert_eq!(first_segment_len(5000), SDO_DOWNLOAD_MAX_SIZE);
    assert_eq!(first_segment_len(1008), 1008);
    assert_eq!(first_segment_len(1009), 1008);
}

#[test]
fn test_drive_words() {
    let status = StatusWord::unpack(&[0x37, 0x12]).unwrap();
    assert!(status.ready_switch_on);
    assert!(status.switched_on);
    assert!(status.operation_enabled);
    assert!(!status.fault);
    assert!(status.voltage_enabled);
    assert!(status.quick_stop);
    assert!(status.remote);
    assert!(status.following_command);
    assert!(!status.following_error);
    let control = ControlWord { switch_on: true, enable_voltage: true, quick_stop: true, enable_operation: true, trigger: false, cycle: 2, reset_fault: true, halt: false, specific: false, reserved0: false, reserved1: 0 };
    let mut buf = [0u8; 2];
    control.pack(&mut buf).unwrap();
    assert_eq!(buf, [0xcf, 0x00]);
    assert_eq!(ControlWord::unpack(&buf).unwrap(), control);
    assert_eq!(OperationMode::SynchronousPosition.code(), 8);
    assert_eq!(OperationMode::from_code(5), None);
    let modes = SupportedModes::unpack(&[0x80, 0x03, 0, 0]).unwrap();
    assert!(modes.synchronous_velocity);
    assert!(modes.synchronous_torque);
    assert!(modes.synchronous_torque_commutation);
    assert!(!modes.homing);
    let device = DeviceType::unpack(&[0x02, 0x02, 0x92, 0x01]).unwrap();
    assert_eq!(device.profile, 402);
    assert!(device.drive().servo);
    let error = DeviceError::unpack(&[0x81]).unwrap();
    assert!(error.generic && error.manufacturer && !error.voltage);
    let positioning = Positioning::unpack(&[0xc0, 0x00]).unwrap();
    assert!(positioning.rado_mode().closest_negative && positioning.rado_mode().closest_positive);
    let setting = SynchronizationSetting::unpack(&[0x05, 0, 0, 0]).unwrap();
    assert!(setting.toggle && !setting.input_cycle && setting.output_cycle);
}

#[test]
fn test_synchronization_sdos() {
    let modes = SyncModes::unpack(&[0x07, 0x40]).unwrap();
    assert!(modes.free && modes.sm && modes.dc_sync0 && !modes.dc_sync1);
    assert!(modes.dynamic_cycle_time);
    let control = SyncCycleControl { measure_local_time: true, reset_event_counter: true, reserved: 0 };
    let mut buf = [0u8; 2];
    control.pack(&mut buf).unwrap();
    assert_eq!(buf, [0x03, 0x00]);
    assert_eq!(SyncMode::from_code(0x22), Some(SyncMode::SM2Sync));
    let sync = Synchronization { index: 0x1c32 };
    assert_eq!(sync.sync_mode().field.len, 16);
    assert_eq!(sync.supported_modes().sub, SdoPart::Sub(4));
    assert_eq!(sync.max_sm_sync_distance().field.offset, 55 * 8);

    let mut bytes = [0u8; 72];
    bytes[0] = 32;
    bytes[1] = 0x02;
    bytes[3 .. 7].copy_from_slice(&1_000_000u32.to_le_bytes());
    bytes[71] = 1;
    let full = SynchronizationFull::unpack(&bytes).unwrap();
    assert_eq!(full.nb_sync_params, 32);
    assert_eq!(full.sync_mode, 2);
    assert_eq!(full.cycle_time, 1_000_000);
    assert!(full.sync_error);
    let mut back = [0u8; 72];
    full.pack(&mut back).unwrap();
    assert_eq!(back, bytes);
    assert!(SynchronizationFull::unpack(&bytes[.. 71]).is_err());
}

#[test]
fn test_more_registers() {
    let counts = PortsErrorCount::unpack(&[1, 2, 3, 4, 5, 6, 7, 8]).unwrap();
    assert_eq!((counts.port0.frame, counts.port0.physical), (1, 2));
    assert_eq!((counts.port3.frame, counts.port3.physical), (7, 8));
    assert_eq!(ports_errors().offset, 0x300);
    let mut bytes = [0u8; 60];
    bytes[0 .. 4].copy_from_slice(&100u32.to_le_bytes());
    bytes[4 .. 8].copy_from_slice(&160u32.to_le_bytes());
    bytes[16 .. 24].copy_from_slice(&0x1122_3344_5566_7788u64.to_le_bytes());
    bytes[44 .. 48].copy_from_slice(&0x8000_0010u32.to_le_bytes());
    let dc = DistributedClock::unpack(&bytes).unwrap();
    assert_eq!(dc.received_time_0, 100);
    assert_eq!(dc.received_time_1, 160);
    assert_eq!(dc.system_time, 0x1122_3344_5566_7788);
    assert_eq!(dc.system_difference.mean, 0x10);
    assert!(dc.system_difference.sign);
    assert_eq!(clock().offset, 0x900);
    assert_eq!(clock().len, 60);
    assert_eq!(DcRange::from_code(1), Some(DcRange::Bit64));
    assert_eq!(Forwarding::Filter.code(), 1);
    assert_eq!(SiiOwner::from_code(1), Some(SiiOwner::Pdi));
    assert_eq!(SiiTransaction::Bytes8.code(), 1);
    assert_eq!(SiiUnit::from_code(0), Some(SiiUnit::Byte));
}

#[test]
fn test_mapping_registers() {
    let mut slave = MappingSlave::new();
    let mut offset: u32 = 0;
    let (start, end) = slave.range(&mut offset, SyncDirection::Read, 0x130, 0x132);
    assert_eq!((start, end), (0, 2));
    let field = slave.register(&mut offset, SyncDirection::Read, al_status());
    // the register follows the range in the logical memory but not in the physical one: an other FMMU maps it
    assert_eq!(field.offset, 2);
    assert_eq!(field.len, 1);
    assert_eq!(slave.config.fmmu.len(), 2);
    assert_eq!(slave.config.fmmu[0].physical, 0x130);
    assert_eq!(slave.config.fmmu[1].physical, 0x130);
    assert_eq!(slave.buffer, SLAVE_PHYSICAL_MAPPABLE_START);
}
