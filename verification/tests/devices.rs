use pngtuber_core::devices::{
    available_names, position_of, select_named_device, AudioError, DeviceProbe,
};

#[test]
fn unknown_name_is_device_not_found() {
    let names = vec![
        Some(String::from("Built-in Microphone")),
        None,
        Some(String::from("USB Headset")),
    ];
    let requested = String::from("nonexistent-device-xyz");
    assert_eq!(
        select_named_device(&names, &requested),
        Err(AudioError::DeviceNotFound)
    );
}

#[test]
fn empty_listing_is_device_not_found() {
    let names: Vec<Option<String>> = Vec::new();
    let requested = String::from("anything");
    assert_eq!(
        select_named_device(&names, &requested),
        Err(AudioError::DeviceNotFound)
    );
}

#[test]
fn exact_name_match_is_selected() {
    let names = vec![
        Some(String::from("Built-in Microphone")),
        Some(String::from("USB Headset")),
    ];
    let requested = String::from("USB Headset");
    assert_eq!(select_named_device(&names, &requested), Ok(1));
}

#[test]
fn first_match_wins_and_unnamed_are_skipped() {
    let names = vec![
        None,
        Some(String::from("USB Headset")),
        Some(String::from("USB Headset")),
    ];
    let requested = String::from("USB Headset");
    assert_eq!(select_named_device(&names, &requested), Ok(1));
}

#[test]
fn listing_keeps_usable_devices_in_order() {
    let probes = vec![
        DeviceProbe {
            name: Some(String::from("Built-in Microphone")),
            config_ok: true,
        },
        DeviceProbe {
            name: Some(String::from("Broken Input")),
            config_ok: false,
        },
        DeviceProbe {
            name: None,
            config_ok: true,
        },
        DeviceProbe {
            name: Some(String::from("USB Headset")),
            config_ok: true,
        },
    ];
    let listed = available_names(&probes);
    assert_eq!(
        listed,
        vec![
            String::from("Built-in Microphone"),
            String::from("USB Headset")
        ]
    );
}

#[test]
fn listing_of_nothing_is_empty() {
    let probes: Vec<DeviceProbe> = Vec::new();
    assert_eq!(available_names(&probes), Vec::<String>::new());
}

#[test]
fn current_device_is_found_in_the_listing() {
    let list = vec![
        String::from("Built-in Microphone"),
        String::from("USB Headset"),
    ];
    assert_eq!(position_of(&list, &String::from("USB Headset")), Some(1));
    assert_eq!(position_of(&list, &String::from("Line In")), None);
}
