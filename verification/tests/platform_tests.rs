use quad_gamepad::GamepadButton;
use quad_gamepad::analog::normalize;
use quad_gamepad::hid::classify;
use quad_gamepad::hid::is_joystick_device;
use quad_gamepad::hid::observe_report;
use quad_gamepad::hid::rescale_axis;
use quad_gamepad::hid::sort_by_usage;
use quad_gamepad::hid::Device;
use quad_gamepad::hid::ElementClass;
use quad_gamepad::hid::HIDElement;
use quad_gamepad::io_kit::kIOHIDProductKey;
use quad_gamepad::io_kit::kIOHIDVendorIDKey;
use quad_gamepad::ioctl::eviocgabs;
use quad_gamepad::ioctl::eviocgbit;
use quad_gamepad::ioctl::eviocgid;
use quad_gamepad::ioctl::eviocgname;
use quad_gamepad::ioctl::io;
use quad_gamepad::ioctl::ioc;
use quad_gamepad::ioctl::ior;
use quad_gamepad::ioctl::iorw;
use quad_gamepad::ioctl::iow;
use quad_gamepad::ioctl::is_bit_set;
use quad_gamepad::mapping::Mapping;
use quad_gamepad::runtime::to_analog_state_array;
use quad_gamepad::runtime::to_digital_state_array;
use quad_gamepad::runtime::hat_value;
use quad_gamepad::xinput::capability_buttons;
use quad_gamepad::xinput::capability_info;
use quad_gamepad::xinput::capability_name;
use quad_gamepad::xinput::snapshot_analog;
use quad_gamepad::xinput::snapshot_digital;
use quad_gamepad::xinput::thumb_axis;
use quad_gamepad::xinput::XInputCapabilities;
use quad_gamepad::xinput::XInputState;
use quad_gamepad::xinput::XINPUT_GAMEPAD_A;
use quad_gamepad::xinput::XINPUT_GAMEPAD_B;
use quad_gamepad::xinput::XINPUT_GAMEPAD_START;

#[test]
fn normalize_extremes_and_midpoint() {
    assert_eq!(normalize(0, 0, 200), -32768);
    assert_eq!(normalize(200, 0, 200), 32768);
    assert_eq!(normalize(100, 0, 200), 0);
    // samples outside the range clamp to the range first
    assert_eq!(normalize(-50, 0, 200), -32768);
    assert_eq!(normalize(999, 0, 200), 32768);
}

#[test]
fn normalize_odd_width_midpoint_stays_near_center() {
    // a width-65535 range: the floored midpoint lands one quotient step
    // below exact center
    assert_eq!(normalize(32767, 0, 65535), -1);
    // the narrowest odd range deviates the most, as the backing formula
    // itself does
    assert_eq!(normalize(1, 0, 3), -10923);
}

#[test]
fn normalize_signed_range() {
    assert_eq!(normalize(-32768, -32768, 32768), -32768);
    assert_eq!(normalize(0, -32768, 32768), 0);
    assert_eq!(normalize(32768, -32768, 32768), 32768);
}

#[test]
fn hat_values_pass_through() {
    assert_eq!(hat_value(-1), -32768);
    assert_eq!(hat_value(0), 0);
    assert_eq!(hat_value(1), 32768);
    assert_eq!(hat_value(-9), -32768);
    assert_eq!(hat_value(9), 32768);
}

#[test]
fn ioctl_requests_match_the_kernel_encoding() {
    assert_eq!(eviocgid(), 0x8008_4502);
    assert_eq!(eviocgname(256), 0x8100_4506);
    assert_eq!(eviocgbit(0, 4), 0x8004_4520);
    assert_eq!(eviocgbit(1, 96), 0x8060_4521);
    assert_eq!(eviocgabs(0), 0x8018_4540);
    assert_eq!(eviocgabs(5), 0x8018_4545);
}

#[test]
fn ioc_directions() {
    assert_eq!(io(69, 1), 0x4501);
    assert_eq!(ior(69, 1, 4), 0x8004_4501);
    assert_eq!(iow(69, 1, 4), 0x4004_4501);
    assert_eq!(iorw(69, 1, 4), 0xc004_4501);
    assert_eq!(ioc(2, 69, 1, 4), 0x8004_4501);
}

#[test]
fn bit_scan_reads_bitmap_bits() {
    let arr = [0b0000_0010u8, 0b1000_0000u8];
    assert!(is_bit_set(1, &arr));
    assert!(!is_bit_set(0, &arr));
    assert!(is_bit_set(15, &arr));
    assert!(!is_bit_set(8, &arr));
}

#[test]
fn iokit_property_keys() {
    assert_eq!(kIOHIDVendorIDKey(), "VendorID");
    assert_eq!(kIOHIDProductKey(), "Product");
}

#[test]
fn element_classification() {
    assert_eq!(classify(0x1, 0x30), ElementClass::Axis);
    assert_eq!(classify(0x1, 0x38), ElementClass::Axis);
    assert_eq!(classify(0x1, 0x39), ElementClass::Hat);
    assert_eq!(classify(0x1, 0x90), ElementClass::Button);
    assert_eq!(classify(0x1, 0x3D), ElementClass::Button);
    assert_eq!(classify(0x09, 0x01), ElementClass::Button);
    assert_eq!(classify(0x0C, 0x20), ElementClass::Button);
    // a generic-desktop usage that is no input element
    assert_eq!(classify(0x1, 0x05), ElementClass::Ignored);
    assert_eq!(classify(0x7, 0x30), ElementClass::Ignored);
}

fn elem(usage: u32, page: u32, cookie: u32) -> HIDElement {
    HIDElement { usage, page, cookie, min_report: 0, max_report: 255 }
}

#[test]
fn device_add_elements_classifies_and_dedupes() {
    let mut d = Device::new(b"pad".to_vec(), b"guid".to_vec());
    d.add_elements(&vec![
        elem(0x30, 0x1, 1),      // axis
        elem(0x39, 0x1, 2),      // hat
        elem(0x01, 0x9, 3),      // button
        elem(0x30, 0x1, 1),      // duplicate cookie: dropped
        elem(0x99, 0x7, 4),      // unclassifiable: dropped
    ]);
    assert_eq!(d.axes.len(), 1);
    assert_eq!(d.hats.len(), 1);
    assert_eq!(d.buttons.len(), 1);
    assert!(d.contain_element(1));
    assert!(d.contain_element(2));
    assert!(d.contain_element(3));
    assert!(!d.contain_element(4));
}

#[test]
fn elements_sort_by_usage() {
    let mut v = vec![elem(0x35, 0x1, 1), elem(0x30, 0x1, 2), elem(0x33, 0x1, 3)];
    sort_by_usage(&mut v);
    assert_eq!(v[0].usage, 0x30);
    assert_eq!(v[1].usage, 0x33);
    assert_eq!(v[2].usage, 0x35);
    assert_eq!(v.len(), 3);
}

#[test]
fn axis_rescaling() {
    // a byte-range element mapped onto the signed 16-bit scale
    assert_eq!(rescale_axis(0, -128, 127, -32768, 32767), 128);
    assert_eq!(rescale_axis(-128, -128, 127, -32768, 32767), -32768);
    assert_eq!(rescale_axis(127, -128, 127, -32768, 32767), 32767);
}

#[test]
fn observed_samples_widen_the_range() {
    let mut e = elem(0x30, 0x1, 1);
    observe_report(&mut e, 300);
    assert_eq!(e.min_report, 0);
    assert_eq!(e.max_report, 300);
    observe_report(&mut e, -5);
    assert_eq!(e.min_report, -5);
    assert_eq!(e.max_report, 300);
    observe_report(&mut e, 100);
    assert_eq!(e.min_report, -5);
    assert_eq!(e.max_report, 300);
}

#[test]
fn digital_state_array_applies_the_mapping() {
    let mapping = Mapping::new(b"g");
    let arr = to_digital_state_array(&mapping, &vec![true, false, true]);
    assert_eq!(arr.len(), 16);
    assert!(arr[GamepadButton::A.index()]);
    assert!(!arr[GamepadButton::B.index()]);
    assert!(arr[GamepadButton::X.index()]);
    assert!(!arr[GamepadButton::Y.index()]);
}

#[test]
fn analog_state_array_copies_and_pads() {
    let arr = to_analog_state_array(&vec![5, -7]);
    assert_eq!(arr, vec![5, -7, 0, 0, 0, 0, 0, 0]);
    let clamped = to_analog_state_array(&vec![40000, -40000]);
    assert_eq!(clamped[0], 32768);
    assert_eq!(clamped[1], -32768);
}

#[test]
fn xinput_names_by_subtype() {
    assert_eq!(capability_name(0x01), b"XBOX360 gamepad controller".to_vec());
    assert_eq!(capability_name(0x02), b"XBOX360 wheel controller".to_vec());
    assert_eq!(capability_name(0x06), b"XBOX360 guitar controller".to_vec());
    assert_eq!(capability_name(0xFF), b"XBOX360 controller".to_vec());
}

#[test]
fn xinput_capability_buttons_in_probe_order() {
    let (buttons, masks) = capability_buttons(XINPUT_GAMEPAD_A | XINPUT_GAMEPAD_B
        | XINPUT_GAMEPAD_START);
    assert_eq!(buttons, vec![GamepadButton::A, GamepadButton::B, GamepadButton::Start]);
    assert_eq!(masks, vec![XINPUT_GAMEPAD_A, XINPUT_GAMEPAD_B, XINPUT_GAMEPAD_START]);
}

#[test]
fn xinput_capability_info() {
    let caps = XInputCapabilities {
        sub_type: 0x01,
        w_buttons: XINPUT_GAMEPAD_A,
        left_trigger: 255,
        right_trigger: 0,
        thumb_lx: -1,
        thumb_ly: 1,
        thumb_rx: 0,
        thumb_ry: 0,
    };
    let info = capability_info(&caps);
    assert_eq!(info.name, b"XBOX360 gamepad controller".to_vec());
    assert_eq!(info.buttons, vec![GamepadButton::A]);
    assert_eq!(info.analog_count, 3);
}

#[test]
fn xinput_thumb_axis_normalization() {
    assert_eq!(thumb_axis(-32768), -32768);
    assert_eq!(thumb_axis(32767), 32768);
    assert_eq!(thumb_axis(0), 0);
}

#[test]
fn xinput_snapshot_decoding() {
    let digital = snapshot_digital(&vec![XINPUT_GAMEPAD_A, XINPUT_GAMEPAD_B],
        XINPUT_GAMEPAD_B);
    assert_eq!(digital, vec![false, true]);
    let state = XInputState {
        packet: 7,
        w_buttons: XINPUT_GAMEPAD_B,
        left_trigger: 0,
        right_trigger: 0,
        thumb_lx: -32768,
        thumb_ly: 32767,
        thumb_rx: 0,
        thumb_ry: 0,
    };
    let analog = snapshot_analog(&state);
    assert_eq!(analog, vec![-32768, 32768, 0, 0]);
}

#[test]
fn joystick_device_filter() {
    // generic-desktop joystick, game pad and multi-axis controller pass
    assert!(is_joystick_device(0x1, 0x04));
    assert!(is_joystick_device(0x1, 0x05));
    assert!(is_joystick_device(0x1, 0x08));
    // keyboards and mice do not
    assert!(!is_joystick_device(0x1, 0x06));
    assert!(!is_joystick_device(0x1, 0x02));
    assert!(!is_joystick_device(0x7, 0x04));
}
