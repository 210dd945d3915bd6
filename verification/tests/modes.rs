use irecovery::RecoveryMode;

#[test]
fn maps_known_recovery_modes() {
    assert_eq!(
        RecoveryMode::from_product_id(0x1222),
        Some(RecoveryMode::Wtf)
    );
    assert_eq!(
        RecoveryMode::from_product_id(0x1227),
        Some(RecoveryMode::Dfu)
    );
    assert_eq!(
        RecoveryMode::from_product_id(0x1281),
        Some(RecoveryMode::Recovery)
    );
    assert_eq!(
        RecoveryMode::from_product_id(0x1881),
        Some(RecoveryMode::Kis)
    );
    assert_eq!(RecoveryMode::from_product_id(0x9999), None);
    assert_eq!(RecoveryMode::from(0x9999), RecoveryMode::Unknown(0x9999));
}

#[test]
fn product_ids_round_trip() {
    for product_id in 0..=u16::MAX {
        let mode = RecoveryMode::from(product_id);
        match RecoveryMode::from_product_id(product_id) {
            Some(known) => {
                assert_eq!(mode, known);
                assert!(mode.is_known());
                assert_eq!(mode.product_id(), Some(product_id));
            }
            None => {
                assert_eq!(mode, RecoveryMode::Unknown(product_id));
                assert!(!mode.is_known());
                assert_eq!(mode.product_id(), None);
            }
        }
    }
    assert_eq!(RecoveryMode::Restore.product_id(), Some(0x1280));
}
