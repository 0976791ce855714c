use icue_kb_games::controller::{ControllerDescriptor, DeviceType};
use icue_kb_games::directory::{build_led_map, extract_char, select_keyboard, KeyMap};
use icue_kb_games::error::ConnectError;

fn strings(items: &[&str]) -> Vec<String> {
    items.iter().map(|s| s.to_string()).collect()
}

fn device(index: u32, device_type: DeviceType, vendor: &str, name: &str) -> ControllerDescriptor {
    ControllerDescriptor {
        index,
        device_type,
        display_name: if vendor.is_empty() { name.to_string() } else { format!("{vendor} {name}") },
        vendor: vendor.to_string(),
        led_names: strings(&["Key: A"]),
        led_alt_names: Vec::new(),
    }
}

#[test]
fn names_with_marker_identify_their_key() {
    assert_eq!(extract_char("Key: A"), Some('A'));
    assert_eq!(extract_char("KEY B"), Some('B'));
    assert_eq!(extract_char("Key1"), Some('1'));
    assert_eq!(extract_char("key:z"), Some('Z'));
    assert_eq!(extract_char("Key: 7"), Some('7'));
}

#[test]
fn space_is_found_anywhere_in_the_name() {
    assert_eq!(extract_char("space bar"), Some(' '));
    assert_eq!(extract_char("Key: Space"), Some(' '));
    assert_eq!(extract_char("BackSPACE"), Some(' '));
    assert_eq!(extract_char("spac e"), Some('E'));
}

#[test]
fn first_piece_of_one_character_is_the_key() {
    assert_eq!(extract_char("Left Q"), Some('Q'));
    assert_eq!(extract_char("Key: Num 5 x"), Some('5'));
    assert_eq!(extract_char("a-b"), Some('A'));
    assert_eq!(extract_char("q"), Some('Q'));
    assert_eq!(extract_char("F1, 9"), Some('9'));
}

#[test]
fn names_without_a_lone_piece_identify_no_key() {
    assert_eq!(extract_char(""), None);
    assert_eq!(extract_char("Key: Enter"), None);
    assert_eq!(extract_char("Logo"), None);
    assert_eq!(extract_char("Key: F12"), None);
    assert_eq!(extract_char("Key: ;"), None);
    assert_eq!(extract_char("Key:"), None);
    assert_eq!(extract_char("  "), None);
}

#[test]
fn letters_outside_ascii_split_and_do_not_count() {
    assert_eq!(extract_char("\u{e9}"), None);
    assert_eq!(extract_char("x\u{e9}"), Some('X'));
    assert_eq!(extract_char("Key: \u{df} q"), Some('Q'));
}

#[test]
fn marker_is_dropped_only_at_the_start() {
    assert_eq!(extract_char("KEYA"), Some('A'));
    assert_eq!(extract_char("XKEYA"), None);
    assert_eq!(extract_char("My Key: A"), Some('A'));
    assert_eq!(extract_char("KEY:KEY"), None);
    assert_eq!(extract_char("KeyKey A"), Some('A'));
}

#[test]
fn whitespace_around_the_name_is_dropped_before_the_marker_is_looked_for() {
    assert_eq!(extract_char("  KEYA  "), Some('A'));
    assert_eq!(extract_char("\t\nKey: b\r\n"), Some('B'));
    assert_eq!(extract_char("\u{a0}\u{2003}KEYC\u{3000}"), Some('C'));
    assert_eq!(extract_char("_KEYA"), None);
    assert_eq!(extract_char("\u{200b}KEYA"), None);
}

#[test]
fn key_map_of_four_names() {
    let names = strings(&["Key: A", "KEY B", "space bar", "Key1"]);
    let map = build_led_map(&names, &Vec::new());
    assert_eq!(map.get('A'), Some(0));
    assert_eq!(map.get('B'), Some(1));
    assert_eq!(map.get(' '), Some(2));
    assert_eq!(map.get('1'), Some(3));
    assert_eq!(map.get('a'), None);
    assert_eq!(map.get('C'), None);
    assert!(!map.is_empty());
}

#[test]
fn later_name_for_a_mapped_key_changes_nothing() {
    let names = strings(&["Key: A", "KEY B", "space bar", "Key1", "Key: A", "b"]);
    let map = build_led_map(&names, &Vec::new());
    assert_eq!(map.get('A'), Some(0));
    assert_eq!(map.get('B'), Some(1));
}

#[test]
fn alternate_names_are_scanned_first() {
    let names = strings(&["Key: A", "Key: B", "Key: C"]);
    let alts = strings(&["Key: B", "", "Logo"]);
    let map = build_led_map(&names, &alts);
    assert_eq!(map.get('B'), Some(0));
    assert_eq!(map.get('A'), Some(0));
    assert_eq!(map.get('C'), Some(2));
}

#[test]
fn alternate_names_without_a_primary_name_are_left_out() {
    let names = strings(&["Key: A"]);
    let alts = strings(&["Logo", "Key: Z"]);
    let map = build_led_map(&names, &alts);
    assert_eq!(map.get('Z'), None);
    assert_eq!(map.get('A'), Some(0));
}

#[test]
fn names_that_identify_nothing_give_an_empty_map() {
    let map = build_led_map(&strings(&["Logo", "Key: Enter"]), &strings(&["", "Strip"]));
    assert!(map.is_empty());
    assert!(build_led_map(&Vec::new(), &Vec::new()).is_empty());
    assert!(KeyMap::new().is_empty());
}

#[test]
fn insert_first_keeps_the_first_led() {
    let mut map = KeyMap::new();
    map.insert_first('Q', 4);
    map.insert_first('Q', 9);
    map.insert_first('W', 9);
    assert_eq!(map.get('Q'), Some(4));
    assert_eq!(map.get('W'), Some(9));
}

#[test]
fn no_keyboard_is_an_error() {
    let devices = vec![
        device(0, DeviceType::Other(2), "Corsair", "Mouse"),
        device(1, DeviceType::Other(0), "Corsair", "Board"),
    ];
    assert_eq!(select_keyboard(devices, "corsair"), Err(ConnectError::NoKeyboard));
    assert_eq!(select_keyboard(Vec::new(), "corsair"), Err(ConnectError::NoKeyboard));
}

#[test]
fn preferred_vendor_wins_over_enumeration_order() {
    let devices = vec![
        device(0, DeviceType::Other(2), "Corsair", "Mouse"),
        device(1, DeviceType::Keyboard, "Acme", "Clacker"),
        device(2, DeviceType::Keyboard, "CORSAIR", "K70"),
        device(3, DeviceType::Keyboard, "Corsair", "K95"),
    ];
    assert_eq!(select_keyboard(devices, "corsair").unwrap().index, 2);
}

#[test]
fn preferred_vendor_may_stand_in_the_display_name() {
    let devices = vec![
        device(0, DeviceType::Keyboard, "Acme", "Clacker"),
        device(1, DeviceType::Keyboard, "", "My CoRsAiR board"),
    ];
    assert_eq!(select_keyboard(devices, "Corsair").unwrap().index, 1);
}

#[test]
fn first_keyboard_is_taken_without_a_preferred_one() {
    let devices = vec![
        device(0, DeviceType::Other(1), "Acme", "Fan"),
        device(1, DeviceType::Keyboard, "Acme", "Clacker"),
        device(2, DeviceType::Keyboard, "Other", "Board"),
    ];
    assert_eq!(select_keyboard(devices, "corsair").unwrap().index, 1);
}

#[test]
fn selected_keyboard_keeps_its_description() {
    let devices = vec![
        device(0, DeviceType::Keyboard, "Acme", "Clacker"),
        device(7, DeviceType::Keyboard, "Corsair", "K70"),
    ];
    let expected = devices[1].clone();
    assert_eq!(select_keyboard(devices, "corsair"), Ok(expected));
}
