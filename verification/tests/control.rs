use etherage::sdo::{SyncMode, SyncModes, SyncCycleControl};
use etherage::synchro::{sync_type_request, sync_supported, sync_cycle_request, sync_configurable};
use etherage::clock::{clock_address, find_referent, init_topology, slave_delay, find_delay_ports};
use etherage::rawmaster::SlaveAddress;
use etherage::registers::{AlState, AlError, AlStatus, AlControlResponse, SiiControl};
use etherage::data::{PduData, PackingError};
use etherage::sii::{
    Sii, SiiError, SiiCursor, CategoryHeader, CategoryType, CATEGORIES, read_request, read_finished, read_status,
    read_chunk, write_check, write_request, write_finished, write_status, reload_request, reload_finished,
    reload_status, category_step, parse_strings, decode_strings,
};
use etherage::slave::{state_of, switch_request, switch_step, switch_error, broadcast_switch_step, SwitchStep};
use etherage::synchro::{
    SyncClock, ClockStatus, SlaveSyncType, SlaveClockConfigHelper, ClockSetting, CONTINOUS_TIMELAPS, STATIC_FRAME_COUNT,
    CLOCK_SAMPLES, LOOP_PARAMETER_0, LOOP_PARAMETER_2_MEASURE, LOOP_PARAMETER_2_SYNC,
};
use etherage::registers::{DistributedClock, TimeDifference};
use etherage::EthercatError;

#[test]
fn test_clock_reference() {
    assert_eq!(clock_address(2, 0), SlaveAddress::AutoIncremented(2));
    assert_eq!(clock_address(2, 0x1001), SlaveAddress::Fixed(0x1001));
    assert_eq!(find_referent(&[false, true, true]).unwrap(), 1);
    assert!(matches!(find_referent(&[false, false]), Err(EthercatError::Protocol("cannot find first slave supporting clock"))));
}

#[test]
fn test_topology() {
    // a line of 3 slaves: each has its ports 0 and 1 linked, but the last one
    let topology = init_topology(&[0b0011, 0b0011, 0b0001]).unwrap();
    assert_eq!(topology.len(), 12);
    // each slave is attached on its port 0 to the slave before it
    assert_eq!(topology[4], Some(0));
    assert_eq!(topology[8], Some(1));
    assert!(topology[0 .. 4].contains(&Some(1)));
    assert!(topology[4 .. 8].contains(&Some(2)));
    // a slave whose predecessor has no free port goes back to the last slave that still has one
    let branch = init_topology(&[0b0111, 0b0001, 0b0001]).unwrap();
    assert_eq!(branch[0], Some(1));
    assert_eq!(branch[4], Some(0));
    assert_eq!(branch[1], Some(2));
    assert_eq!(branch[8], Some(0));
    // a slave with no link cannot be attached
    assert!(matches!(init_topology(&[0b0001, 0b0001, 0b0001]),
        Err(EthercatError::Protocol("topology identification failed due to wrong slave port activation"))));
}

#[test]
fn test_delay_ports() {
    let topology = init_topology(&[0b0011, 0b0011, 0b0001]).unwrap();
    // slave 2 hangs on port 1 of slave 1, whose port 0 leads back to slave 0; slave 2 is reached on its port 0
    assert_eq!(topology[5], Some(2));
    assert_eq!(find_delay_ports(&topology, 2, 1), (1, 0, 0));
    // a slave with 3 children on ports 0, 1 and 3
    let mut star = vec![None; 16];
    star[0] = Some(1);
    star[1] = Some(2);
    star[3] = Some(3);
    star[4] = Some(0);
    star[8] = Some(0);
    star[13] = Some(0);
    // the child on port 3 is measured against port 1, the last connected port before it, and is reached on its port 1
    assert_eq!(find_delay_ports(&star, 3, 0), (3, 1, 1));
    assert_eq!(find_delay_ports(&star, 2, 0), (1, 0, 0));
}

#[test]
fn test_slave_delay() {
    // 2 samples of the 4 port times of a parent and its child
    let parent = [100, 160, 0, 0, 200, 262, 0, 0];
    let child = [120, 140, 0, 0, 220, 240, 0, 0];
    // transitions: (160-100) - (140-120) = 40, (262-200) - (240-220) = 42, halved mean 20
    // ports: 60 and 62, mean 61
    assert_eq!(slave_delay(10, &parent, &child, 2, 1, 0, 1, 0), 10 + 20 + 61);
}

#[test]
fn delays_grow_along_tree() {
    // a chain of three slaves with the same latched times: each delay adds to its parent's
    let times = [100, 160, 0, 0, 200, 262, 0, 0];
    let inner = [120, 140, 0, 0, 220, 240, 0, 0];
    let mut delays = vec![0u32];
    for _ in 1 .. 3 {
        let parent = *delays.last().unwrap();
        delays.push(slave_delay(parent, &times, &inner, 2, 1, 0, 1, 0));
    }
    assert_eq!(delays, vec![0, 81, 162]);
    assert!(delays.iter().all(|&d| d >= delays[0]));
    // a slave with no transition time at all keeps its parent's delay, plus the time between the parent ports
    let flat = [100, 100, 0, 0];
    assert_eq!(slave_delay(7, &flat, &flat, 1, 1, 0, 1, 0), 7);
}

#[test]
fn test_sii_access() {
    let mut status = SiiControl::unpack(&[0x81, 0x00]).unwrap();
    let mut sii = Sii::new(SlaveAddress::Fixed(1), status).unwrap();
    assert!(sii.writable());
    assert_eq!(sii.mask, 0xffff);
    let access = sii.acquire().unwrap();
    assert!(!access.owner);
    // acquiring twice writes nothing more
    assert!(sii.acquire().is_none());
    let access = sii.release().unwrap();
    assert!(access.owner);
    assert!(sii.release().is_none());
    assert_eq!(sii.categories().position(), CATEGORIES);
    status.checksum_error = true;
    assert!(matches!(Sii::new(SlaveAddress::Fixed(1), status), Err(EthercatError::Slave(SiiError::Checksum))));
}

#[test]
fn test_sii_read() {
    let request = read_request(0x11, 4);
    assert!(request.control.read_operation);
    assert_eq!(request.address, 0xa);
    let mut status = SiiControl::unpack(&[0x40, 0x81]).unwrap();
    assert!(!read_finished(&status));
    status.busy = false;
    status.read_operation = false;
    assert!(read_finished(&status));
    assert_eq!(read_status(&status).unwrap(), 8);
    status.device_info_error = true;
    assert!(matches!(read_status(&status), Err(EthercatError::Slave(SiiError::DeviceInfo))));
    status.command_error = true;
    assert!(matches!(read_status(&status), Err(EthercatError::Slave(SiiError::Command))));

    // reading 5 bytes from an odd address: the first transaction starts at the second byte of the word
    let eeprom: Vec<u8> = (0 .. 32).collect();
    let mut buffer = [0u8; 5];
    let address: usize = 0x11;
    let position = read_chunk(&mut buffer, 0, address % 2, 4, &eeprom[address - 1 .. address + 7]);
    assert_eq!(position, 3);
    let position = read_chunk(&mut buffer, position, 0, 4, &eeprom[address + 3 .. address + 11]);
    assert_eq!(position, 5);
    assert_eq!(buffer, [0x11, 0x12, 0x13, 0x14, 0x15]);
}

#[test]
fn test_sii_write() {
    assert!(write_check(0x10).is_ok());
    assert!(matches!(write_check(0x11), Err(EthercatError::Master("address must be word-aligned"))));
    let request = write_request(0x10, &[1, 2, 3, 4], 2);
    assert!(request.control.write_operation);
    assert_eq!(request.address, 9);
    assert_eq!(request.data, 0x0403);
    let mut status = SiiControl::unpack(&[0x00, 0x00]).unwrap();
    assert!(write_finished(&status));
    assert!(write_status(&status).is_ok());
    status.write_error = true;
    assert!(matches!(write_status(&status), Err(EthercatError::Slave(SiiError::Write))));
    assert!(reload_request().reload_operation);
    status.reload_operation = true;
    assert!(!reload_finished(&status));
    status.write_error = false;
    status.checksum_error = true;
    assert!(matches!(reload_status(&status), Err(EthercatError::Slave(SiiError::Checksum))));
}

#[test]
fn test_sii_category_search() {
    let mut cursor = SiiCursor::new(CATEGORIES);
    let strings = CategoryHeader { ty: 10, size: 6 };
    assert_eq!(category_step(&strings, CategoryType::General).unwrap(), Some(12));
    cursor.advance(4 + 12);
    assert_eq!(cursor.shadow().position(), CATEGORIES + 16);
    let general = CategoryHeader { ty: 30, size: 16 };
    assert_eq!(category_step(&general, CategoryType::General).unwrap(), None);
    let end = CategoryHeader { ty: 0xffff, size: 0 };
    assert!(matches!(category_step(&end, CategoryType::General), Err(EthercatError::Master("no general category in EEPROM"))));
    assert!(matches!(category_step(&end, CategoryType::Strings), Err(EthercatError::Master("no strings category in EEPROM"))));
}

#[test]
fn test_sii_strings() {
    let strings = parse_strings(&[2, 3, b'a', b'b', b'c', 1, b'z', 0]).unwrap();
    assert_eq!(strings, vec![b"abc".to_vec(), b"z".to_vec()]);
    assert_eq!(parse_strings(&[0]).unwrap(), Vec::<Vec<u8>>::new());
    assert!(matches!(parse_strings(&[2, 3, b'a']), Err(EthercatError::Master("strings category is truncated"))));
    assert!(matches!(parse_strings(&[]), Err(EthercatError::Master("strings category is truncated"))));
    // the strings are UTF-8 texts
    let texts = decode_strings(&parse_strings(&[2, 3, b'a', b'b', b'c', 2, 0xc3, 0xa9]).unwrap()).unwrap();
    assert_eq!(texts, vec![String::from("abc"), String::from("\u{e9}")]);
    assert!(matches!(decode_strings(&[b"abc".to_vec(), vec![0xff]]), Err(EthercatError::Master("strings in EEPROM are not UTF8"))));
    assert_eq!(decode_strings(&[]).unwrap(), Vec::<String>::new());
}

#[test]
fn test_slave_switch() {
    let status = AlStatus::unpack(&[0x02]).unwrap();
    assert_eq!(state_of(&status).unwrap(), AlState::PreOperational);
    assert!(matches!(state_of(&AlStatus::unpack(&[0x06]).unwrap()), Err(EthercatError::Protocol("undefined slave state"))));
    let request = switch_request(AlState::SafeOperational, false);
    let mut buf = [0u8; 1];
    request.pack(&mut buf).unwrap();
    assert_eq!(buf, [0x14]);
    let mut response = AlControlResponse { state: AlState::PreOperational.code(), error: false, id: false, reserved: 0 };
    assert_eq!(switch_step(&response, AlState::SafeOperational), SwitchStep::Pending);
    assert_eq!(broadcast_switch_step(&response, AlState::SafeOperational).unwrap(), false);
    response.state = AlState::SafeOperational.code();
    assert_eq!(switch_step(&response, AlState::SafeOperational), SwitchStep::Done);
    assert_eq!(broadcast_switch_step(&response, AlState::SafeOperational).unwrap(), true);
    response.error = true;
    assert_eq!(switch_step(&response, AlState::SafeOperational), SwitchStep::Failed);
    assert!(matches!(broadcast_switch_step(&response, AlState::SafeOperational), Err(EthercatError::Slave(()))));
    assert!(switch_error(0).is_ok());
    assert!(matches!(switch_error(0x0011), Err(EthercatError::Slave(AlError::InvalidStateRequest))));
    assert!(matches!(switch_error(0x0fff), Err(EthercatError::Protocol("undefined slave error"))));
}

#[test]
fn test_sync_clock() {
    let mut clock = SyncClock::new();
    assert_eq!(clock.get_status(), ClockStatus::Registering);
    assert_eq!(clock.cycle_time, CONTINOUS_TIMELAPS);
    clock.set_sync_loop_limits(0, 10).unwrap();
    // the default synchronization period is 1 ms
    assert_eq!((clock.cycle_time, clock.drift_frm_count), (1_000_000, 10));
    clock.set_sync_loop_limits(1000, 0).unwrap();
    assert_eq!((clock.cycle_time, clock.drift_frm_count), (1000, STATIC_FRAME_COUNT));
    clock.slave_register(0).unwrap();
    clock.slave_register(1).unwrap();
    clock.slave_register(2).unwrap();
    clock.set_dc_slave_config(1, SlaveClockConfigHelper::default());
    assert_eq!(clock.slaves[1].clock_type, SlaveSyncType::DcSync0);
    assert!(clock.slaves[1].isochronous.generate_sync0);
    assert!(clock.slaves[1].isochronous.enable_cyclic);
    assert_eq!(clock.slaves[1].isochronous.sync_0_cycle_time, 2000000);
    // the default configuration has no pulse
    assert_eq!(clock.slaves[1].isochronous.sync_pulse, 0);
    assert_eq!(clock.slaves[0].clock_type, SlaveSyncType::Free);
    assert_eq!(clock.get_loop_parameters(2), Some([0, 0, 0]));
    assert_eq!(clock.get_loop_parameters(7), None);

    assert!(matches!(clock.init_reference(5), Err(EthercatError::Slave(_))));
    clock.init_reference(0).unwrap();
    assert_eq!(clock.ref_l_idx, Some(0));
    // the reference is never unregistered
    clock.slave_unregister(0);
    assert_eq!(clock.slaves.len(), 3);
    clock.slave_unregister(2);
    assert_eq!(clock.slaves.len(), 2);

    assert!(clock.start().is_err());
    clock.initialized();
    clock.start().unwrap();
    assert_eq!(clock.get_status(), ClockStatus::Active);
    assert!(clock.dc);
    assert!(clock.set_sync_loop_limits(5, 5).is_err());
    assert!(matches!(clock.slave_register(3), Err(EthercatError::Slave("Cannot register slaves if clock is initialzed or running"))));
    // nothing is unregistered while running
    clock.slave_unregister(1);
    assert_eq!(clock.slaves.len(), 2);
    clock.slaves[0].system_delay = 40;
    clock.slaves[0].received_time = [1, 2, 3, 4];
    clock.reset();
    assert_eq!(clock.get_status(), ClockStatus::Initialized);
    // the clocks and sync units of the slaves are reset too
    for slave in clock.slaves.iter() {
        assert_eq!((slave.received_time, slave.system_delay, slave.system_offset), ([0; 4], 0, 0));
        assert_eq!(slave.control_loop_params, [0; 3]);
        assert!(!slave.isochronous.enable_cyclic && slave.isochronous.sync_0_cycle_time == 0);
    }
    // while registering, nothing is reset
    let mut registering = SyncClock::new();
    registering.slave_register(1).unwrap();
    registering.slaves[0].system_delay = 40;
    registering.reset();
    assert_eq!(registering.slaves[0].system_delay, 40);
    assert_eq!(registering.get_status(), ClockStatus::Registering);
}

#[test]
fn test_sync_types() {
    assert_eq!(SlaveSyncType::get_byte(SlaveSyncType::Free), [0, 0]);
    assert_eq!(SlaveSyncType::get_byte(SlaveSyncType::Sm2), [0x01, 0x22]);
    assert_eq!(SlaveSyncType::get_byte(SlaveSyncType::DcSync0), [0x02, 0x02]);
    assert_eq!(SlaveSyncType::get_byte(SlaveSyncType::DcSync1), [0x03, 0x03]);
    assert!(SlaveSyncType::DcSyncShift.is_dc());
    assert!(!SlaveSyncType::Sm3.is_dc());
    let config = SlaveClockConfigHelper::new(None, None, Some(500), None);
    assert_eq!(config.sync_1_time, Some(500));
    assert_eq!(SlaveSyncType::default(), SlaveSyncType::Free);
    assert_eq!(ClockStatus::default(), ClockStatus::Registering);
}

#[test]
fn test_error_conversions() {
    let error: EthercatError<u8> = EthercatError::from(PackingError::BadSize(3, "too small"));
    assert!(matches!(error, EthercatError::Protocol("too small")));
    let error: EthercatError<u16> = EthercatError::<u8>::Slave(5).into();
    assert!(matches!(error, EthercatError::Slave(5)));
    let error: EthercatError<u32> = EthercatError::<u8>::Timeout("late").map(|v| v as u32 + 1);
    assert!(matches!(error, EthercatError::Timeout("late")));
    let error: EthercatError<u32> = EthercatError::<u8>::Slave(4).map(|v| v as u32 + 1);
    assert!(matches!(error, EthercatError::Slave(5)));
    // mapping twice is mapping once with the composed callback, mapping with the identity changes nothing
    let twice: EthercatError<u32> = EthercatError::<u8>::Slave(4).map(|v| v as u16 * 3).map(|v| v as u32 + 1);
    let once: EthercatError<u32> = EthercatError::<u8>::Slave(4).map(|v| (v as u16 * 3) as u32 + 1);
    assert!(matches!((twice, once), (EthercatError::Slave(13), EthercatError::Slave(13))));
    assert!(matches!(EthercatError::<u8>::Protocol("bad").map(|v| v), EthercatError::Protocol("bad")));
    assert!(matches!(EthercatError::<u8>::Slave(9).map(|v| v), EthercatError::Slave(9)));
    let error: EthercatError<SiiError> = EthercatError::<()>::Master("busy").upgrade();
    assert!(matches!(error, EthercatError::Master("busy")));
    let io = std::io::Error::new(std::io::ErrorKind::Other, "down");
    let error: EthercatError = EthercatError::from(io);
    assert!(matches!(error, EthercatError::Io(_)));
}

#[test]
fn registered_slaves_are_configured() {
    let mut clock = SyncClock::new();
    clock.slave_register(7).unwrap();
    let config = SlaveClockConfigHelper::new(None, Some(1000), None, Some(3));
    assert_eq!(clock.slaves_register(&[7, 8], config).unwrap(), 3);
    // the slaves given are registered and configured, and so is the one registered before with the same index
    for slave in clock.slaves.iter() {
        assert_eq!(slave.clock_type, SlaveSyncType::DcSync0);
        assert!(slave.isochronous.generate_sync0 && slave.isochronous.interrupt0 && slave.isochronous.enable_cyclic);
        assert_eq!(slave.isochronous.sync_0_cycle_time, 1000);
        assert_eq!(slave.isochronous.sync_pulse, 3);
    }
    assert_eq!(clock.slaves.iter().map(|s| s.index).collect::<Vec<u16>>(), vec![7, 7, 8]);
    // a slave not listed keeps its configuration
    clock.slave_register(9).unwrap();
    clock.slaves_register(&[8], SlaveClockConfigHelper::new(None, None, None, None)).unwrap();
    assert_eq!(clock.slaves[0].clock_type, SlaveSyncType::DcSync0);
    assert_eq!(clock.slaves[3].clock_type, SlaveSyncType::Free);
    assert_eq!(clock.slaves[2].clock_type, SlaveSyncType::Free);
}

#[test]
fn test_sync_clock_delays() {
    let mut clock = SyncClock::new();
    assert_eq!(clock.slaves_register(&[0, 1, 2], SlaveClockConfigHelper::new(None, None, None, None)).unwrap(), 3);
    assert_eq!(clock.slaves.len(), 3);
    clock.slaves[0].received_time = [100, 300, 0, 0];
    clock.slaves[1].received_time = [150, 250, 0, 0];
    clock.slaves[2].received_time = [200, 0, 0, 0];
    clock.init_reference(0).unwrap();
    clock.update_delay().unwrap();
    // the delay between the first two slaves is half the round trip seen by the first one
    assert_eq!(clock.delay, 100);
    let delays: Vec<u32> = clock.slaves.iter().map(|s| s.system_delay).collect();
    assert_eq!(delays, vec![0, 100, 100]);

    clock.set_dc_slave_config(1, SlaveClockConfigHelper::default());
    clock.set_dc_slave_config(2, SlaveClockConfigHelper::default());
    clock.slaves[0].local_time = 1000;
    clock.slaves[1].local_time = 1500;
    clock.slaves[2].local_time = 900;
    clock.update_offset(5000);
    assert_eq!(clock.offset, 5000 - 1000 - 100);
    assert_eq!(clock.slaves[0].system_offset, 0);
    assert_eq!(clock.slaves[1].system_offset, 500);
    assert_eq!(clock.slaves[2].system_offset, (-100i64) as u64);

    clock.set_loop_paramters(2, 0x1000, 0x0c04);
    assert_eq!(clock.get_loop_parameters(2), Some([0x1000, 0, 0x0c04]));
    assert_eq!(clock.get_loop_parameters(1), Some([0, 0, 0]));
}

fn clock_sample(received: [u32; 4], system_time: u64, local_time: u64) -> DistributedClock {
    DistributedClock {
        received_time_0: received[0],
        received_time_1: received[1],
        received_time_2: received[2],
        received_time_3: received[3],
        system_time,
        receive_time_unit: local_time,
        system_offset: 0,
        system_delay: 0,
        system_difference: TimeDifference { mean: 0, sign: false },
        reserved0: 0,
        reserved1: 0,
        reserved2: 0,
    }
}

#[test]
fn test_sync_clock_init() {
    let mut clock = SyncClock::new();
    clock.slaves_register(&[0, 1, 2], SlaveClockConfigHelper::new(None, None, None, None)).unwrap();
    clock.set_all_loop_parameters(LOOP_PARAMETER_0, LOOP_PARAMETER_2_MEASURE);
    assert_eq!(clock.get_loop_parameters(1), Some([0x1000, 0, 0x0c04]));
    // the samples are meant, truncating
    let mut samples = Vec::new();
    for i in 0 .. CLOCK_SAMPLES as u32 {
        samples.push(clock_sample([100 + i, 200 + 2 * i, 0, u32::MAX], 1000 + u64::from(i), u64::MAX - u64::from(i)));
    }
    clock.record_samples(1, &samples);
    assert_eq!(clock.slaves[1].received_time, [103, 207, 0, u32::MAX]);
    assert_eq!(clock.slaves[1].system_time, 1003);
    assert_eq!(clock.slaves[1].local_time, u64::MAX - 4);
    assert_eq!(clock.slaves[0].received_time, [0, 0, 0, 0]);
    // a port with no link, or latched before port 0, is cleared
    clock.clear_unlinked_ports(1, 0b1011);
    assert_eq!(clock.slaves[1].received_time, [103, 207, 0, u32::MAX]);
    clock.slaves[1].received_time = [103, 50, 300, 400];
    clock.clear_unlinked_ports(1, 0b0111);
    assert_eq!(clock.slaves[1].received_time, [103, 0, 300, 0]);
    // only the slaves from the reference on are set
    clock.set_all_loop_parameters(LOOP_PARAMETER_0, LOOP_PARAMETER_2_SYNC);
    clock.init_reference(1).unwrap();
    clock.slaves[2].system_delay = 40;
    clock.slaves[2].system_offset = 7;
    assert_eq!(clock.settings(), vec![
        ClockSetting { index: 1, system_delay: 0, system_offset: 0, loop_parameter_2: 0x0c00, loop_parameter_0: 0x1000 },
        ClockSetting { index: 2, system_delay: 40, system_offset: 7, loop_parameter_2: 0x0c00, loop_parameter_0: 0x1000 },
    ]);
}

#[test]
fn clock_initialization() {
    let mut clock = SyncClock::new();
    clock.slaves_register(&[0, 1, 2], SlaveClockConfigHelper::new(None, None, None, None)).unwrap();
    let received = [[100, 300, 7, 0], [150, 250, 0, 0], [200, 0, 0, 0]];
    let samples: Vec<Vec<DistributedClock>> = received.iter()
        .map(|r| (0 .. CLOCK_SAMPLES).map(|_| clock_sample(*r, 10, 1000)).collect())
        .collect();
    let links = vec![Some(0b0011), Some(0b0011), None];
    // errors: a reference not registered, no slave answering
    assert!(matches!(clock.init(5, 3, &samples, &links, 5000), Err(EthercatError::Slave("Reference doesn't register in this DC instance"))));
    assert!(matches!(clock.init(0, 0, &samples, &links, 5000), Err(EthercatError::Protocol("DC initialisation - No slave found"))));
    assert_eq!(clock.get_status(), ClockStatus::Registering);
    // the initialization needs times giving the delays, and a local time after the reference's
    assert!(clock.init_defined(0, 3, &samples, &links, 5000));
    assert!(!clock.init_defined(0, 3, &samples, &links, 1099));
    assert!(clock.init_defined(0, 3, &samples, &links, 1100));
    assert!(clock.init_defined(5, 3, &samples, &links, 0));
    // the next slave latched its ports out of order: the delay of the first one cannot be computed
    let mut backwards = samples.clone();
    backwards[1] = (0 .. CLOCK_SAMPLES).map(|_| clock_sample([150, 250, 240, 260], 10, 1000)).collect();
    assert!(!clock.init_defined(0, 3, &backwards, &[Some(0b0011), None, None], 5000));
    clock.init(0, 3, &samples, &links, 5000).unwrap();
    assert_eq!(clock.get_status(), ClockStatus::Initialized);
    assert_eq!((clock.ref_p_idx, clock.ref_l_idx), (0, Some(0)));
    // the time on the unlinked port 2 of the first slave is cleared
    assert_eq!(clock.slaves[0].received_time, [100, 300, 0, 0]);
    assert_eq!(clock.delay, 100);
    assert_eq!(clock.offset, 5000 - 1000 - 100);
    assert_eq!(clock.slaves.iter().map(|s| s.system_delay).collect::<Vec<u32>>(), vec![0, 100, 100]);
    assert!(clock.slaves.iter().all(|s| s.control_loop_params == [LOOP_PARAMETER_0, 0, LOOP_PARAMETER_2_SYNC]));
    // an active clock cannot be initialized again
    clock.start().unwrap();
    assert!(matches!(clock.init(0, 3, &samples, &links, 5000), Err(EthercatError::Slave("Cannot initialize a clack that active"))));
}

#[test]
fn test_sync_clock_survey() {
    let mut clock = SyncClock::new();
    clock.slave_register(4).unwrap();
    let far = etherage::registers::TimeDifference { mean: 800, sign: true };
    let near = etherage::registers::TimeDifference { mean: 20, sign: false };
    assert!(clock.survey_time_sync(0, far));
    assert!(clock.slaves[0].is_desync);
    // already desynchronized
    assert!(!clock.survey_time_sync(0, far));
    assert!(!clock.survey_time_sync(0, near));
    assert!(!clock.slaves[0].is_desync);
}

#[test]
fn test_sync_clock_periods() {
    let mut clock = SyncClock::new();
    for index in [1u16, 2, 3] {
        clock.slave_register(index).unwrap();
    }
    // with no reference, the global time is the local time
    assert_eq!(clock.global_time(1_000_000), 1_000_000);
    clock.init_reference(2).unwrap();
    assert_eq!(clock.ref_l_idx, Some(1));
    clock.offset = 5_000;
    let reference = clock.ref_l_idx.unwrap();
    clock.slaves[reference].system_delay = 300;
    assert_eq!(clock.global_time(1_000_000), 1_000_000 - 5_000 - 300 - 100_000);
    // the watched slave goes round the registered slaves
    let far = TimeDifference { mean: 501, sign: false };
    let near = TimeDifference { mean: 500, sign: true };
    assert_eq!(clock.sync_period(0, far), 1);
    assert!(clock.slaves[0].is_desync);
    assert_eq!(clock.sync_period(1, near), 2);
    assert!(!clock.slaves[1].is_desync);
    assert_eq!(clock.sync_period(2, far), 0);
    assert_eq!(clock.sync_period(0, near), 1);
    assert!(!clock.slaves[0].is_desync);
    assert!(clock.slaves[2].is_desync);
}

#[test]
fn test_sync_requests() {
    assert!(sync_configurable(AlState::SafeOperational));
    assert!(sync_configurable(AlState::Operational));
    assert!(!sync_configurable(AlState::PreOperational));
    assert!(matches!(sync_type_request(SlaveSyncType::DcSync0, 33), Err(EthercatError::Protocol("Channel to high"))));
    assert_eq!(sync_type_request(SlaveSyncType::DcSync0, 0).unwrap(), SyncMode::DCSync0);
    assert_eq!(sync_type_request(SlaveSyncType::Sm2, 32).unwrap(), SyncMode::SM2Sync);
    assert_eq!(sync_type_request(SlaveSyncType::DcSyncShift, 1).unwrap(), SyncMode::FreeRun);
    let none = SyncModes {
        free: true, sm: false, dc_sync0: false, dc_sync1: false, dc_fixed: false, shift: false, shift_local_time: false,
        reserved0: 0, delay_time_compute: false, delay_time_fixed: false, reserved1: 0, dynamic_cycle_time: false, reserved2: false,
    };
    let dc = SyncModes { dc_sync0: true, ..none };
    assert!(matches!(sync_supported(SlaveSyncType::DcSync0, none), Err(EthercatError::Protocol("Synchronization not supported by this slave"))));
    assert!(sync_supported(SlaveSyncType::DcSync0, dc).is_ok());
    assert!(sync_supported(SlaveSyncType::Free, none).is_ok());
    assert!(matches!(sync_supported(SlaveSyncType::Sm2, dc), Err(EthercatError::Protocol(_))));
    assert_eq!(sync_cycle_request(dc, Some((true, false))), Some(SyncCycleControl { measure_local_time: true, reset_event_counter: false, reserved: 0 }));
    assert_eq!(sync_cycle_request(none, Some((true, false))), None);
    assert_eq!(sync_cycle_request(dc, None), None);
}
