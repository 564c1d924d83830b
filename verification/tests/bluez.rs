use audiocontrol::bluez::{
    address_from_part, control_method, device_info, device_part, device_path, find_device_by_address, get_active_device,
    parse_playback_status, track_info, BluetoothDeviceInfo, BluetoothPlaybackStatus, BluetoothTrackInfo,
};

#[test]
fn test_bluetooth_device_info_creation() {
    let device_info = BluetoothDeviceInfo {
        device_address: "80:B9:89:1E:B5:6F".to_string(),
        device_name: Some("Test Device".to_string()),
        player_path: "/org/bluez/hci0/dev_80_B9_89_1E_B5_6F/player0".to_string(),
        is_connected: true,
        is_playing: false,
    };

    assert_eq!(device_info.device_address, "80:B9:89:1E:B5:6F");
    assert_eq!(device_info.device_name, Some("Test Device".to_string()));
    assert!(device_info.is_connected);
    assert!(!device_info.is_playing);
}

#[test]
fn test_bluetooth_track_info_creation() {
    let track_info = BluetoothTrackInfo {
        title: Some("Test Song".to_string()),
        artist: Some("Test Artist".to_string()),
        album: Some("Test Album".to_string()),
        duration: Some(180000),
        position: Some(30000),
    };

    assert_eq!(track_info.title, Some("Test Song".to_string()));
    assert_eq!(track_info.artist, Some("Test Artist".to_string()));
    assert_eq!(track_info.album, Some("Test Album".to_string()));
    assert_eq!(track_info.duration, Some(180000));
    assert_eq!(track_info.position, Some(30000));
}

#[test]
fn test_playback_status_enum() {
    assert_eq!(BluetoothPlaybackStatus::Playing, BluetoothPlaybackStatus::Playing);
    assert_ne!(BluetoothPlaybackStatus::Playing, BluetoothPlaybackStatus::Paused);
}

#[test]
fn the_status_property_names_the_playback_status() {
    assert_eq!(parse_playback_status(Some("playing")), BluetoothPlaybackStatus::Playing);
    assert_eq!(parse_playback_status(Some("paused")), BluetoothPlaybackStatus::Paused);
    assert_eq!(parse_playback_status(Some("stopped")), BluetoothPlaybackStatus::Stopped);
    assert_eq!(parse_playback_status(Some("error")), BluetoothPlaybackStatus::Unknown);
    assert_eq!(parse_playback_status(None), BluetoothPlaybackStatus::Unknown);
}

#[test]
fn a_player_path_names_its_device() {
    let part = device_part("/org/bluez/hci0/dev_80_B9_89_1E_B5_6F/player0").unwrap();
    assert_eq!(part, "80_B9_89_1E_B5_6F");
    assert_eq!(address_from_part(&part), "80:B9:89:1E:B5:6F");
    assert_eq!(device_path(&part), "/org/bluez/hci0/dev_80_B9_89_1E_B5_6F");
    assert_eq!(device_part("/org/mpris/player"), None);
}

#[test]
fn device_info_reads_playing_from_the_status() {
    let info = device_info("/p", "AA_BB", Some("Phone".to_string()), true, BluetoothPlaybackStatus::Playing);
    assert_eq!(info.device_address, "AA:BB");
    assert!(info.is_playing);
    assert_eq!(info.player_path, "/p");
    let idle = device_info("/p", "AA_BB", None, false, BluetoothPlaybackStatus::Paused);
    assert!(!idle.is_playing);
}

#[test]
fn commands_map_to_player_methods() {
    assert_eq!(control_method("play"), Ok("Play"));
    assert_eq!(control_method("previous"), Ok("Previous"));
    assert_eq!(control_method("shuffle"), Err("Unknown command: shuffle".to_string()));
}

#[test]
fn track_info_carries_the_metadata_and_position() {
    let t = track_info(Some((Some("T".to_string()), None, Some("Al".to_string()), Some(180000))), Some(5));
    assert_eq!(t.title, Some("T".to_string()));
    assert_eq!(t.artist, None);
    assert_eq!(t.duration, Some(180000));
    assert_eq!(t.position, Some(5));
    let empty = track_info(None, None);
    assert_eq!(empty.title, None);
    assert_eq!(empty.duration, None);
}

fn device(addr: &str, playing: bool) -> BluetoothDeviceInfo {
    BluetoothDeviceInfo {
        device_address: addr.to_string(),
        device_name: None,
        player_path: format!("/p/{}", addr),
        is_connected: true,
        is_playing: playing,
    }
}

#[test]
fn devices_are_found_by_address_ignoring_case() {
    let found = find_device_by_address(vec![device("AA:BB", false), device("cc:dd", false)], "CC:DD").unwrap();
    assert_eq!(found.device_address, "cc:dd");
    assert!(find_device_by_address(vec![device("AA:BB", false)], "EE:FF").is_none());
}

#[test]
fn the_active_device_is_the_first_playing_one() {
    let d = get_active_device(vec![device("1", false), device("2", true), device("3", true)]).unwrap();
    assert_eq!(d.device_address, "2");
    assert!(get_active_device(vec![device("1", false)]).is_none());
}
