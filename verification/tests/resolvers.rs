use irecovery::db;
use irecovery::{
    DeviceMetadata, DeviceMetadataResolver, InitializedRecoveryDevice, RecoveryDeviceInfo,
    RecoveryMode,
};

const FULL_DESCRIPTOR: &str = "CPID:8015 CPRV:11 CPFM:03 SCEP:01 BDID:06 ECID:0011223344556677 IBFL:1C SRNM:[F2LTEST12345] IMEI:[356000000000000] SRTG:[d22ap]";

#[test]
fn resolver_can_match_by_hardware_model() {
    struct FakeResolver;

    impl DeviceMetadataResolver for FakeResolver {
        fn resolve(&self, info: &RecoveryDeviceInfo) -> Option<DeviceMetadata> {
            (info.srtg.as_deref() == Some("d22ap")).then_some(DeviceMetadata {
                model_identifier: "iPhone10,3",
                board: "d22ap",
                marketing_name: "iPhone X",
                display_name: "iPhone X",
            })
        }
    }

    let info = RecoveryDeviceInfo::parse(FULL_DESCRIPTOR, 0x1281).unwrap();
    let metadata = FakeResolver.resolve(&info).unwrap();

    assert_eq!(metadata.board, "d22ap");
    assert_eq!(metadata.display_name, "iPhone X");
}

#[test]
fn device_uses_metadata_convenience_methods() {
    let device_info = RecoveryDeviceInfo::parse(FULL_DESCRIPTOR, 0x1281).unwrap();
    let device = InitializedRecoveryDevice {
        mode: RecoveryMode::Recovery,
        metadata: Some(DeviceMetadata {
            model_identifier: "iPhone10,3",
            board: "d22ap",
            marketing_name: "iPhone X",
            display_name: "iPhone X",
        }),
        device_info,
    };

    assert_eq!(device.hardware_model(), Some("d22ap"));
    assert_eq!(device.display_name(), "iPhone X");
}

#[test]
fn bundled_db_resolver_matches_by_board() {
    let info = RecoveryDeviceInfo::parse(FULL_DESCRIPTOR, 0x1281).unwrap();
    let metadata = db::devices().resolve(&info).unwrap();

    assert_eq!(metadata.model_identifier, "iPhone10,3");
    assert_eq!(metadata.board, "d22ap");
    assert_eq!(metadata.display_name, "iPhone X");
}

#[test]
fn bundled_db_resolver_falls_back_to_adapted_cpid_bdid() {
    let info = RecoveryDeviceInfo::parse("CPID:8015 BDID:06 ECID:1", 0x1281).unwrap();
    let metadata = db::devices().resolve(&info).unwrap();

    assert_eq!(metadata.board, "d22ap");
}

#[test]
fn bundled_db_resolver_returns_none_for_unknown_device() {
    let info =
        RecoveryDeviceInfo::parse("CPID:ffff BDID:ff ECID:1 SRTG:[nopeap]", 0x1281).unwrap();

    assert_eq!(db::devices().resolve(&info), None);
}

fn entry(board: &'static str, cpid: u16, bdid: u16) -> db::DeviceDatabaseInfo {
    db::DeviceDatabaseInfo {
        model_identifier: "model",
        board,
        cpid,
        bdid,
        marketing_name: "marketing",
        display_name: "display",
    }
}

#[test]
fn the_board_decides_before_the_numbers() {
    let entries = [entry("a1ap", 1, 2), entry("b2ap", 3, 4), entry("B2AP", 5, 6)];
    let entries: &[db::DeviceDatabaseInfo] = &entries;
    let both = RecoveryDeviceInfo::parse("CPID:2 BDID:1 SRTG:[B2aP]", 0).unwrap();
    let numbers = RecoveryDeviceInfo::parse("CPID:2 BDID:1 SRTG:[zz]", 0).unwrap();
    let half = RecoveryDeviceInfo::parse("CPID:2", 0).unwrap();

    assert_eq!(entries.resolve(&both).unwrap().board, "b2ap");
    assert_eq!(entries.resolve(&numbers).unwrap().board, "a1ap");
    assert_eq!(entries.resolve(&half), None);
}

#[test]
fn boards_compare_ignoring_ascii_case_only() {
    let entries = [entry("\u{e9}X[", 1, 2)];
    let entries: &[db::DeviceDatabaseInfo] = &entries;
    for (srtg, same) in [
        ("\u{e9}x[", true),
        ("\u{c9}x[", false),
        ("\u{e9}x{", false),
        ("\u{e9}x", false),
    ] {
        let info = RecoveryDeviceInfo {
            srtg: Some(srtg.to_owned()),
            ..RecoveryDeviceInfo::default()
        };
        assert_eq!(entries.resolve(&info).is_some(), same, "{srtg}");
    }
}

#[test]
fn names_without_metadata() {
    let mut device = InitializedRecoveryDevice {
        mode: RecoveryMode::Dfu,
        metadata: None,
        device_info: RecoveryDeviceInfo::parse("SRTG:[n71ap]", 0x1227).unwrap(),
    };
    assert_eq!(device.hardware_model(), Some("n71ap"));
    assert_eq!(device.display_name(), "Unknown Device");
    assert_eq!(device.clone().device_info, device.device_info);

    device.device_info = RecoveryDeviceInfo::default();
    assert_eq!(device.hardware_model(), None);
}
