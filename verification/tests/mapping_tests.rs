use quad_gamepad::GamepadButton;
use quad_gamepad::mapping::Mapping;
use quad_gamepad::mapping::Platform;
use quad_gamepad::mapping::read_mappings_file;
use quad_gamepad::mapping::resolve;
use quad_gamepad::mapping::MAX_BTNS;

#[test]
fn default_mapping_fixed_button_order() {
    let m = Mapping::new(b"0000");
    let expected = [
        GamepadButton::A,
        GamepadButton::B,
        GamepadButton::X,
        GamepadButton::Y,
        GamepadButton::BumperLeft,
        GamepadButton::BumperRight,
        GamepadButton::ThumbLeft,
        GamepadButton::ThumbRight,
        GamepadButton::Back,
        GamepadButton::Select,
        GamepadButton::Start,
        GamepadButton::DpadUp,
        GamepadButton::DpadDown,
        GamepadButton::DpadRight,
        GamepadButton::DpadLeft,
    ];
    for (i, b) in expected.iter().enumerate() {
        assert_eq!(m.buttons[i], *b);
    }
    for i in 15..MAX_BTNS {
        assert_eq!(m.buttons[i], GamepadButton::Unknown);
    }
    assert_eq!(m.guid, b"0000".to_vec());
    assert_eq!(m.name, b"unknown".to_vec());
    assert_eq!(m.platform, Platform::Linux);
}

#[test]
fn line_resolves_on_its_platform() {
    let text = b"GUID,Name,platform:Linux,a:b0,b:b1";
    let db = read_mappings_file(text, Platform::Linux);
    let m = resolve(&db, b"GUID").expect("entry for GUID");
    assert_eq!(m.buttons[0], GamepadButton::A);
    assert_eq!(m.buttons[1], GamepadButton::B);
    // every raw index the line does not assign reads Unknown
    assert_eq!(m.buttons[2], GamepadButton::Unknown);
    assert_eq!(m.buttons[14], GamepadButton::Unknown);
    assert_eq!(m.buttons[139], GamepadButton::Unknown);
    assert_eq!(m.name, b"Name".to_vec());
    assert_eq!(m.platform, Platform::Linux);
}

#[test]
fn line_dropped_on_another_platform() {
    let text = b"GUID,Name,platform:Linux,a:b0,b:b1";
    let db = read_mappings_file(text, Platform::Mac);
    assert!(resolve(&db, b"GUID").is_none());
}

#[test]
fn platform_names_parse() {
    let text = b"g1,n,platform:Windows\ng2,n,platform:Mac OS X\ng3,n,platform:Android\ng4,n,platform:iOS\ng5,n,platform:Linux";
    assert!(resolve(&read_mappings_file(text, Platform::Windows), b"g1").is_some());
    assert!(resolve(&read_mappings_file(text, Platform::Mac), b"g2").is_some());
    assert!(resolve(&read_mappings_file(text, Platform::Android), b"g3").is_some());
    assert!(resolve(&read_mappings_file(text, Platform::IOS), b"g4").is_some());
    assert!(resolve(&read_mappings_file(text, Platform::Linux), b"g5").is_some());
}

#[test]
fn missing_platform_token_means_linux() {
    let text = b"GUID,Name,a:b2";
    let db = read_mappings_file(text, Platform::Linux);
    let m = resolve(&db, b"GUID").expect("entry for GUID");
    assert_eq!(m.buttons[2], GamepadButton::A);
}

#[test]
fn comments_and_blank_lines_are_skipped() {
    let text = b"# a comment\n\nGUID,Name,platform:Linux\n# another\n";
    let db = read_mappings_file(text, Platform::Linux);
    assert_eq!(db.len(), 1);
}

#[test]
fn carriage_returns_are_stripped() {
    let text = b"GUID,Name,platform:Linux,a:b0\r\n";
    let db = read_mappings_file(text, Platform::Linux);
    let m = resolve(&db, b"GUID").expect("entry for GUID");
    assert_eq!(m.buttons[0], GamepadButton::A);
}

#[test]
fn malformed_lines_are_skipped_load_continues() {
    // one field only; unparsable index; index out of range; unknown
    // platform name; then a good line, which must still load
    let text = b"lonefield\ng1,n,a:bX\ng2,n,a:b999\ng3,n,platform:Plan9\nGUID,Name,a:b0";
    let db = read_mappings_file(text, Platform::Linux);
    assert_eq!(db.len(), 1);
    assert!(resolve(&db, b"lonefield").is_none());
    assert!(resolve(&db, b"g1").is_none());
    assert!(resolve(&db, b"g2").is_none());
    assert!(resolve(&db, b"g3").is_none());
    assert!(resolve(&db, b"GUID").is_some());
}

#[test]
fn unrecognized_keys_are_ignored() {
    let text = b"GUID,Name,leftshoulder:b4,a:b0,crc:903b";
    let db = read_mappings_file(text, Platform::Linux);
    let m = resolve(&db, b"GUID").expect("entry for GUID");
    assert_eq!(m.buttons[0], GamepadButton::A);
    // the unrecognized key assigned nothing: its index stays Unknown
    assert_eq!(m.buttons[4], GamepadButton::Unknown);
}

#[test]
fn empty_pair_ends_the_line() {
    let text = b"GUID,Name,a:b5,,b:b6";
    let db = read_mappings_file(text, Platform::Linux);
    let m = resolve(&db, b"GUID").expect("entry for GUID");
    assert_eq!(m.buttons[5], GamepadButton::A);
    // the pair after the empty field was never applied: index 6 stays
    // unassigned
    assert_eq!(m.buttons[6], GamepadButton::Unknown);
}

#[test]
fn later_line_wins_for_one_guid() {
    let text = b"GUID,First,a:b0\nGUID,Second,b:b0";
    let db = read_mappings_file(text, Platform::Linux);
    let m = resolve(&db, b"GUID").expect("entry for GUID");
    assert_eq!(m.name, b"Second".to_vec());
    assert_eq!(m.buttons[0], GamepadButton::B);
}

#[test]
fn resolve_misses_unknown_guid() {
    let text = b"GUID,Name,a:b0";
    let db = read_mappings_file(text, Platform::Linux);
    assert!(resolve(&db, b"OTHER").is_none());
}

#[test]
fn start_and_back_keys_parse() {
    let text = b"GUID,Name,back:b6,start:b7,x:b2,y:b3";
    let db = read_mappings_file(text, Platform::Linux);
    let m = resolve(&db, b"GUID").expect("entry for GUID");
    assert_eq!(m.buttons[6], GamepadButton::Back);
    assert_eq!(m.buttons[7], GamepadButton::Start);
    assert_eq!(m.buttons[2], GamepadButton::X);
    assert_eq!(m.buttons[3], GamepadButton::Y);
}
