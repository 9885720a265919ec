use lidar::rplidar::command::{Command, LidarConf, WorkingMode};

#[test]
fn several_packets() {
    let c1 = Command::Reset;
    let c2 = Command::Scan;
    let c3 = Command::Stop;

    assert_eq!(c1.to_packet(), &[0xA5, 0x40]);
    assert_eq!(c2.to_packet(), &[0xA5, 0x20]);
    assert_eq!(c3.to_packet(), &[0xA5, 0x25]);
}

#[test]
fn extended() {
    let express = Command::ExpressScan(WorkingMode::Legacy);
    let expected = [0xA5, 0x82, 0x05, 0x00, 0x00, 0x00, 0x00, 0x00, 0x22];

    assert_eq!(express.to_packet(), &expected);
}

#[test]
fn express_scan_extended_mode_byte() {
    let express = Command::ExpressScan(WorkingMode::Extended(0x03));
    // 0xA5 ^ 0x82 ^ 0x05 ^ 0x03 = 0x21
    assert_eq!(express.to_packet(), &[0xA5, 0x82, 0x05, 0x03, 0x00, 0x00, 0x00, 0x00, 0x21]);
}

#[test]
fn working_mode_bytes() {
    assert_eq!(WorkingMode::Legacy.to_byte(), 0);
    assert_eq!(WorkingMode::Extended(7).to_byte(), 7);
}

#[test]
#[allow(unused_variables)]
fn lidar_conf_exists() {
    let c = Command::GetLidarConf(LidarConf::ScanModeCount);
    assert!(matches!(c, Command::GetLidarConf(LidarConf::ScanModeCount)));
}

#[test]
fn conf_op_code_byte() {
    assert_eq!(lidar::rplidar::command::ConfOpCode::ScanModeCount.to_u8(), 0x70);
    assert_eq!(lidar::command::ConfOpCode::ScanModeCount.to_u8(), 0x70);
}

#[test]
fn top_level_commands() {
    assert_eq!(lidar::command::Command::Reset.to_packet(), &[0xA5, 0x40]);
    assert_eq!(lidar::command::Command::Scan.to_packet(), &[0xA5, 0x20]);
    assert_eq!(lidar::command::Command::Stop.to_packet(), &[0xA5, 0x25]);
}
