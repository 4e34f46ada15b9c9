use screenshot::display_info::{
    build_device_metadata_map, enumerate_displays, hdr_enabled_from_color_bits,
    DeviceMetadataMap, DisplayInfo, DisplayMetadata, DisplayPathReading, MonitorReading, Rect,
};
use screenshot::utf16::{decode_utf16_units, utf16_to_string, InvalidUtf16};

fn units(s: &str, size: usize) -> Vec<u16> {
    let mut v: Vec<u16> = s.encode_utf16().collect();
    v.resize(size, 0);
    v
}

#[test]
fn utf16_decoding_matches_std() {
    let cases: Vec<Vec<u16>> = vec![
        vec![],
        "hello".encode_utf16().collect(),
        "Grüße 😀 x".encode_utf16().collect(),
        vec![0xD800],
        vec![0xDC00, 0x41],
        vec![0xD83D, 0x41],
        vec![0x41, 0xD83D],
        vec![0xD83D, 0xDE00],
    ];
    for c in cases {
        let mine = decode_utf16_units(&c);
        let std_result = String::from_utf16(&c);
        match (mine, std_result) {
            (Ok(a), Ok(b)) => assert_eq!(a, b),
            (Err(InvalidUtf16), Err(_)) => {}
            (a, b) => panic!("differ on {:?}: {:?} {:?}", c, a, b),
        }
    }
}

#[test]
fn utf16_text_stops_at_nul() {
    assert_eq!(utf16_to_string(&units(r"\\.\DISPLAY1", 32)).unwrap(), r"\\.\DISPLAY1");
    let mut v = units("ab", 2);
    v.push(0);
    v.push(0xD800);
    assert_eq!(utf16_to_string(&v).unwrap(), "ab");
    assert_eq!(utf16_to_string(&[0x61, 0x62]).unwrap(), "ab");
    assert_eq!(utf16_to_string(&[0xDC00, 0]), Err(InvalidUtf16));
}

#[test]
fn hdr_bits() {
    assert!(hdr_enabled_from_color_bits(0x2));
    assert!(hdr_enabled_from_color_bits(0x3));
    assert!(!hdr_enabled_from_color_bits(0x6));
    assert!(!hdr_enabled_from_color_bits(0x0));
    assert!(!hdr_enabled_from_color_bits(0x4));
}

fn meta(name: &str, hdr: bool) -> DisplayMetadata {
    DisplayMetadata {
        display_name: name.to_string(),
        hdr_enabled: hdr,
    }
}

#[test]
fn metadata_map_insert_and_get() {
    let mut map = DeviceMetadataMap::new();
    assert_eq!(map.len(), 0);
    assert!(map.get("A").is_none());
    map.insert("A".to_string(), meta("First", false));
    map.insert("B".to_string(), meta("Second", true));
    assert_eq!(map.len(), 2);
    assert_eq!(map.get("A").unwrap().display_name, "First");
    map.insert("A".to_string(), meta("Replaced", true));
    assert_eq!(map.len(), 2);
    let a = map.get("A").unwrap();
    assert_eq!(a.display_name, "Replaced");
    assert!(a.hdr_enabled);
    assert_eq!(map.get("B").unwrap().display_name, "Second");
    assert!(map.get("C").is_none());
}

fn path(device: &str, bits: u32, name: &str) -> DisplayPathReading {
    DisplayPathReading {
        source_device_name: units(device, 32),
        advanced_color_bits: bits,
        target_friendly_name: units(name, 64),
    }
}

fn monitor(handle: isize, device: &str, flags: u32) -> MonitorReading {
    MonitorReading {
        handle,
        rect: Rect {
            left: 0,
            top: 0,
            right: 1920,
            bottom: 1080,
        },
        device_name: units(device, 32),
        flags,
        frequency: 60,
    }
}

#[test]
fn metadata_map_from_paths() {
    let paths = vec![
        path("D1", 0x2, "Old"),
        path("D2", 0x6, "Second"),
        path("D1", 0x3, "New"),
    ];
    let map = build_device_metadata_map(&paths).unwrap();
    assert_eq!(map.len(), 2);
    assert_eq!(map.get("D1").unwrap().display_name, "New");
    assert!(map.get("D1").unwrap().hdr_enabled);
    assert!(!map.get("D2").unwrap().hdr_enabled);
    let mut bad = path("D3", 0, "x");
    bad.target_friendly_name = vec![0xD800, 0];
    assert!(build_device_metadata_map(&vec![path("D1", 0, "a"), bad]).is_err());
}

#[test]
fn display_info_from_monitor() {
    let mut map = DeviceMetadataMap::new();
    map.insert("D1".to_string(), meta("Friendly", true));
    map.insert("D2".to_string(), meta("", false));
    let info: DisplayInfo = DisplayInfo::new(&monitor(5, "D1", 1), &map).unwrap();
    assert_eq!(info.handle, 5);
    assert_eq!(info.device_name, "D1");
    assert_eq!(info.display_name, "Friendly");
    assert!(info.is_primary);
    assert_eq!(info.hdr_enabled, Some(true));
    assert_eq!(info.frequency, 60);
    assert_eq!(info.rect.right, 1920);
    let info = DisplayInfo::new(&monitor(6, "D2", 0), &map).unwrap();
    assert_eq!(info.display_name, "D2");
    assert!(!info.is_primary);
    assert_eq!(info.hdr_enabled, Some(false));
    let info = DisplayInfo::new(&monitor(7, "D9", 2), &map).unwrap();
    assert_eq!(info.display_name, "D9");
    assert_eq!(info.hdr_enabled, None);
    let mut broken = monitor(8, "", 0);
    broken.device_name = vec![0xDFFF];
    assert!(DisplayInfo::new(&broken, &map).is_err());
}

#[test]
fn displays_enumerated_in_order() {
    let monitors = vec![monitor(1, "D2", 0), monitor(2, "D1", 1)];
    let paths = vec![path("D1", 0x2, "Main")];
    let infos = enumerate_displays(&monitors, &paths).unwrap();
    assert_eq!(infos.len(), 2);
    assert_eq!(infos[0].display_name, "D2");
    assert_eq!(infos[1].display_name, "Main");
    assert_eq!(infos[1].hdr_enabled, Some(true));
    let mut broken = monitor(3, "", 0);
    broken.device_name = vec![0xD800, 0x41];
    assert!(enumerate_displays(&vec![monitor(1, "D1", 0), broken], &paths).is_err());
}
