use game_shared::movement::{is_indoor, should_dismount, WMO_FLAG_INDOOR, WMO_FLAG_OUTDOOR};

#[test]
fn dismount_on_entering_water() {
    assert!(should_dismount(true, true));
    assert!(!should_dismount(false, true));
    assert!(!should_dismount(true, false));
    assert!(!should_dismount(false, false));
}

#[test]
fn wmo_indoor_outdoor_detection() {
    // Indoor flag only → indoor
    assert!(is_indoor(WMO_FLAG_INDOOR));

    // Outdoor flag only → outdoor
    assert!(!is_indoor(WMO_FLAG_OUTDOOR));

    // Both flags → outdoor wins
    assert!(!is_indoor(WMO_FLAG_INDOOR | WMO_FLAG_OUTDOOR));

    // Neither flag → default outdoor
    assert!(!is_indoor(0));

    // Indoor with other flags set → still indoor
    assert!(is_indoor(WMO_FLAG_INDOOR | 0x01));

    // Outdoor with other flags → still outdoor
    assert!(!is_indoor(WMO_FLAG_OUTDOOR | 0x01));
}
