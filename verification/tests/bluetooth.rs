use supervisor::capabilities::bluetooth::{
    class_to_category, dispatch, BluetoothAction, BluetoothCall, AGENT_OBJECT_PATH,
};

#[test]
fn class_to_category_reads_only_the_major_and_minor_bits() {
    for (class, category, case) in [
        (0x00_2540, "keyboard", "a real keyboard"),
        (0x00_2580, "mouse", "a real mouse"),
        ((0x05 << 8) | (0b11_0000 << 2), "keyboard", "a combo keyboard and pointing device"),
        (0x05 << 8, "generic", "a peripheral the spec leaves uncategorized"),
        (0x01 << 8, "computer", "major 0x01"),
        (0x02 << 8, "phone", "major 0x02"),
        ((0x04 << 8) | (0x01 << 2), "headset", "audio/video minor 0x01"),
        ((0x04 << 8) | (0x02 << 2), "headset", "audio/video minor 0x02"),
        ((0x04 << 8) | (0x06 << 2), "headphones", "audio/video minor 0x06"),
        ((0x04 << 8) | (0x03 << 2), "generic", "another audio/video minor"),
        (0x03 << 8, "generic", "LAN/Network Access Point, not a drawn category"),
        (0x24_0404, "headset", "a real headset, whose Service Class bits sit above bit 12"),
    ] {
        assert_eq!(class_to_category(class), category, "{case}");
    }
}

#[test]
fn discovery_and_answers_do_not_wait_in_a_task() {
    assert_eq!(dispatch(BluetoothAction::StartDiscovery), BluetoothCall::Discovery { clear: true, wanted: true });
    assert_eq!(dispatch(BluetoothAction::StopDiscovery), BluetoothCall::Discovery { clear: false, wanted: false });
    assert_eq!(
        dispatch(BluetoothAction::AnswerPairing { mac: "00:1A".into(), accept: true }),
        BluetoothCall::Answer { mac: "00:1A".into(), accept: true }
    );
    assert_eq!(
        dispatch(BluetoothAction::Pair { mac: "00:1A".into() }),
        BluetoothCall::Spawned(BluetoothAction::Pair { mac: "00:1A".into() })
    );
}

#[test]
fn the_agent_has_a_path_of_its_own() {
    assert_eq!(AGENT_OBJECT_PATH, "/org/mantle/Bluez/Agent1");
}
